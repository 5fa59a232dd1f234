//! An injected diagnostics sink. The pipeline never writes to ambient global
//! state: it appends entries to a sink handed in by the host, which makes the
//! warning and debug emissions of the pipeline observable values.

use vstd::prelude::*;

verus! {

/// Severity of one diagnostic entry.
#[derive(Clone, Copy, PartialEq, Eq, Structural, Debug)]
pub enum Level {
    Debug,
    Warn,
}

/// One logged entry: a severity and its message text.
pub struct Entry {
    pub level: Level,
    pub message: String,
}

impl View for Entry {
    type V = (Level, Seq<char>);

    open spec fn view(&self) -> (Level, Seq<char>) {
        (self.level, self.message@)
    }
}

/// How many entries of the given severity a log holds.
pub open spec fn count_level(entries: Seq<(Level, Seq<char>)>, level: Level) -> nat
    decreases entries.len(),
{
    if entries.len() == 0 {
        0
    } else {
        count_level(entries.drop_last(), level) + (if entries.last().0 == level {
            1nat
        } else {
            0nat
        })
    }
}

/// The model of a sink: the entries logged so far, oldest first.
pub open spec fn entries_model(entries: Seq<Entry>) -> Seq<(Level, Seq<char>)> {
    entries.map_values(|e: Entry| e@)
}

/// A diagnostics sink: an append-only log of leveled entries.
pub struct Diagnostics {
    pub entries: Vec<Entry>,
}

impl View for Diagnostics {
    type V = Seq<(Level, Seq<char>)>;

    open spec fn view(&self) -> Seq<(Level, Seq<char>)> {
        entries_model(self.entries@)
    }
}

impl Diagnostics {
    /// An empty sink.
    pub fn new() -> (d: Diagnostics)
        ensures
            d@ =~= Seq::<(Level, Seq<char>)>::empty(),
    {
        Diagnostics { entries: Vec::new() }
    }

    /// Appends one entry; everything logged before stays as it was.
    pub fn log(&mut self, level: Level, message: String)
        ensures
            final(self)@ =~= old(self)@.push((level, message@)),
    {
        let ghost oldm = self@;
        self.entries.push(Entry { level, message });
        proof {
            assert forall|t: int| 0 <= t < old(self).entries@.len()
                implies final(self)@[t] == oldm[t] by {}
        }
    }

    /// How many entries of the given severity the sink holds.
    pub fn count_of(&self, level: Level) -> (r: usize)
        ensures
            r == count_level(self@, level),
    {
        let n = self.entries.len();
        let mut r: usize = 0;
        let mut i: usize = 0;
        while i < n
            invariant
                0 <= i <= n,
                n == self.entries.len(),
                r <= i,
                r == count_level(self@.subrange(0, i as int), level),
            decreases n - i,
        {
            proof {
                assert(self@.subrange(0, i + 1).drop_last() =~= self@.subrange(0, i as int));
            }
            if self.entries[i].level == level {
                r = r + 1;
            }
            i = i + 1;
        }
        proof {
            assert(self@.subrange(0, n as int) =~= self@);
        }
        r
    }
}

} // verus!
