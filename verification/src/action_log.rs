//! The last few things that happened in the game, for the screen.

use vstd::prelude::*;

verus! {

/// One line of the log.
pub struct LogEntry {
    pub text: Seq<char>,
    pub is_error: bool,
}

/// The log keeps its last five lines.
pub open spec fn capacity() -> nat {
    5
}

/// A log with one more line at its end, and without its first line where
/// that made it longer than it may be.
pub open spec fn pushed(log: Seq<LogEntry>, entry: LogEntry) -> Seq<LogEntry> {
    if log.len() + 1 > capacity() {
        log.push(entry).drop_first()
    } else {
        log.push(entry)
    }
}

/// The lines of the log and, for each, whether it reports an error.
pub struct ActionLog {
    actions: Vec<String>,
    is_error: Vec<bool>,
}

impl View for ActionLog {
    type V = Seq<LogEntry>;

    closed spec fn view(&self) -> Seq<LogEntry> {
        Seq::new(
            self.actions@.len(),
            |i: int| LogEntry { text: self.actions@[i]@, is_error: self.is_error@[i] },
        )
    }
}

impl Default for ActionLog {
    fn default() -> (log: Self)
        ensures
            log.wf(),
            log@ == Seq::<LogEntry>::empty(),
    {
        let log = ActionLog { actions: Vec::new(), is_error: Vec::new() };
        assert(log@ =~= Seq::<LogEntry>::empty());
        log
    }
}

impl ActionLog {
    /// Every line has its flag.
    pub closed spec fn wf(&self) -> bool {
        self.actions@.len() == self.is_error@.len()
    }

    /// Puts a line at the end of the log; the oldest line goes when the log
    /// holds more than five.
    pub fn PushAction(&mut self, action: String, error: bool)
        requires
            old(self).wf(),
        ensures
            final(self).wf(),
            final(self)@ == pushed(old(self)@, (LogEntry { text: action@, is_error: error })),
    {
        self.actions.push(action.clone());
        self.is_error.push(error);
        if self.actions.len() > 5 {
            self.actions.remove(0);
            self.is_error.remove(0);
        }
        assert(self@ =~= pushed(old(self)@, (LogEntry { text: action@, is_error: error })));
    }

    /// How many lines the log holds.
    pub fn Length(&self) -> (length: usize)
        ensures
            length == self@.len(),
    {
        self.actions.len()
    }

    /// The line at `index` and whether it reports an error; `None` where
    /// the log has no such line.
    pub fn Line(&self, index: usize) -> (line: Option<(String, bool)>)
        requires
            self.wf(),
        ensures
            match line {
                Some((text, is_error)) => index < self@.len() && text@ == self@[index as int].text
                    && is_error == self@[index as int].is_error,
                None => index >= self@.len(),
            },
    {
        if index >= self.actions.len() {
            return None;
        }
        Some((self.actions[index].clone(), self.is_error[index]))
    }
}

} // verus!
