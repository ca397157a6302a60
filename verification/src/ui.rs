//! What the window shows: the status of each step, the log lines, and the
//! messages taken from the log events.

use vstd::prelude::*;
use crate::ctx::StepStatus;

verus! {

/// A step's status as the window draws it.
#[derive(Clone, Copy, Debug, PartialEq, Eq, Structural)]
pub enum UiStepStatus {
    NotStarted,
    InProgress,
    Completed,
    Failed,
}

/// The drawn status of a step: the same status, without a failure's message.
pub fn to_ui_status(status: &StepStatus) -> (r: UiStepStatus)
    ensures
        match *status {
            StepStatus::NotStarted => r == UiStepStatus::NotStarted,
            StepStatus::InProgress => r == UiStepStatus::InProgress,
            StepStatus::Completed => r == UiStepStatus::Completed,
            StepStatus::Failed(_) => r == UiStepStatus::Failed,
        },
{
    match status {
        StepStatus::NotStarted => UiStepStatus::NotStarted,
        StepStatus::InProgress => UiStepStatus::InProgress,
        StepStatus::Completed => UiStepStatus::Completed,
        StepStatus::Failed(_) => UiStepStatus::Failed,
    }
}

/// The most lines the log keeps.
pub const LOG_CAPACITY: usize = 100;

/// The log lines, newest first; at most `LOG_CAPACITY` of them.
pub struct LogBook {
    lines: Vec<String>,
}

/// The lines after adding `line` in front of `lines`, the oldest dropped
/// when there are more than `LOG_CAPACITY`.
pub open spec fn log_after(lines: Seq<Seq<char>>, line: Seq<char>) -> Seq<Seq<char>> {
    let all = seq![line] + lines;
    if all.len() > LOG_CAPACITY {
        all.take(LOG_CAPACITY as int)
    } else {
        all
    }
}

impl LogBook {
    /// The lines, newest first.
    pub closed spec fn view(&self) -> Seq<Seq<char>> {
        self.lines@.map_values(|s: String| s@)
    }

    /// The log never holds more than `LOG_CAPACITY` lines.
    #[verifier::type_invariant]
    closed spec fn within_capacity(&self) -> bool {
        self.lines@.len() <= LOG_CAPACITY
    }

    /// No lines.
    pub fn new() -> (r: LogBook)
        ensures
            r.view() == Seq::<Seq<char>>::empty(),
    {
        LogBook { lines: Vec::new() }
    }

    /// Adds a line in front; the oldest line goes when the log is over capacity.
    pub fn push(&mut self, line: String)
        ensures
            final(self).view() == log_after(old(self).view(), line@),
            final(self).view().len() <= LOG_CAPACITY,
    {
        proof {
            use_type_invariant(&*self);
        }
        let ghost before = self.view();
        let ghost l = line@;
        let mut lines: Vec<String> = Vec::new();
        std::mem::swap(&mut lines, &mut self.lines);
        lines.insert(0, line);
        assert(lines@.map_values(|s: String| s@) =~= seq![l] + before);
        if lines.len() > LOG_CAPACITY {
            let last = lines.len() - 1;
            lines.remove(last);
            assert(lines@.map_values(|s: String| s@) =~= (seq![l] + before).take(LOG_CAPACITY as int));
        }
        self.lines = lines;
    }

    /// The number of lines.
    pub fn len(&self) -> (r: usize)
        ensures
            r == self.view().len(),
            r <= LOG_CAPACITY,
    {
        proof {
            use_type_invariant(self);
        }
        self.lines.len()
    }

    /// The line at a position, newest first.
    pub fn line(&self, i: usize) -> (r: &String)
        requires
            i < self.view().len(),
        ensures
            r@ == self.view()[i as int],
    {
        &self.lines[i]
    }
}

/// Adding lines one by one never leaves more than `LOG_CAPACITY` lines, and
/// the line added last comes first.
pub proof fn lemma_log_bounded(lines: Seq<Seq<char>>, line: Seq<char>)
    requires
        lines.len() <= LOG_CAPACITY,
    ensures
        log_after(lines, line).len() <= LOG_CAPACITY,
        log_after(lines, line).len() >= 1,
        log_after(lines, line)[0] == line,
        forall|i: int|
            1 <= i < log_after(lines, line).len() ==> #[trigger] log_after(lines, line)[i]
                == lines[i - 1],
{
}

/// The lines after adding each of `adds` in turn, the first of them first.
pub open spec fn log_after_all(lines: Seq<Seq<char>>, adds: Seq<Seq<char>>) -> Seq<Seq<char>>
    decreases adds.len(),
{
    if adds.len() == 0 {
        lines
    } else {
        log_after(log_after_all(lines, adds.drop_last()), adds.last())
    }
}

/// The number of lines kept after `n` additions to an empty log.
pub open spec fn kept_count(n: nat) -> nat {
    if n < LOG_CAPACITY {
        n
    } else {
        LOG_CAPACITY as nat
    }
}

/// Starting from an empty log, after any number of additions the log holds
/// the newest `LOG_CAPACITY` lines (all of them when there are fewer),
/// newest first.
pub proof fn lemma_log_keeps_newest(adds: Seq<Seq<char>>)
    ensures
        log_after_all(Seq::empty(), adds).len() == kept_count(adds.len()),
        forall|i: int|
            0 <= i < kept_count(adds.len()) ==> #[trigger] log_after_all(Seq::empty(), adds)[i]
                == adds[adds.len() - 1 - i],
    decreases adds.len(),
{
    if adds.len() > 0 {
        let prev_adds = adds.drop_last();
        lemma_log_keeps_newest(prev_adds);
        let prev = log_after_all(Seq::empty(), prev_adds);
        let all = seq![adds.last()] + prev;
        assert forall|i: int|
            0 <= i < kept_count(adds.len()) implies #[trigger] log_after_all(Seq::empty(), adds)[i]
                == adds[adds.len() - 1 - i] by {
            if i > 0 {
                assert(all[i] == prev[i - 1]);
                assert(prev_adds[prev_adds.len() - 1 - (i - 1)] == adds[adds.len() - 1 - i]);
            }
        }
    }
}

/// The message of a log event as its debug form shows it, with a pair of
/// surrounding quotes taken off.
pub open spec fn strip_quotes(s: Seq<char>) -> Seq<char> {
    if s.len() >= 2 && s[0] == '"' && s[s.len() - 1] == '"' {
        s.subrange(1, s.len() - 1)
    } else {
        s
    }
}

/// The message with a pair of surrounding quotes taken off. A message that
/// is a single quote character is left out: it both starts and ends with a
/// quote, and there is nothing between.
pub fn clean_message(s: &str) -> (r: String)
    requires
        !(s@.len() == 1 && s@[0] == '"'),
    ensures
        r@ == strip_quotes(s@),
{
    let n = s.unicode_len();
    if n >= 2 && s.get_char(0) == '"' && s.get_char(n - 1) == '"' {
        s.substring_char(1, n - 1).to_owned()
    } else {
        s.to_owned()
    }
}

/// The line shown for a log event: `[`, the level, `] ` and the message;
/// nothing for an empty message.
pub fn log_line(level: &str, message: &str) -> (r: Option<String>)
    ensures
        message@.len() == 0 ==> r is None,
        message@.len() > 0 ==> (r matches Some(l) && l@ == "["@ + level@ + "] "@ + message@),
{
    if message.unicode_len() == 0 {
        return None;
    }
    let mut l = String::from_str("[");
    l.append(level);
    l.append("] ");
    l.append(message);
    Some(l)
}

} // verus!
