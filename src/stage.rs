//! Unique stage names (`kind:k`) and the restart bookkeeping of stages.
use vstd::prelude::*;
use vstd::string::StringExecFns;

use crate::corpus::CorpusId;

verus! {

/// The decimal digits of `n`, most significant first.
pub open spec fn decimal(n: nat) -> Seq<char>
    decreases n,
{
    let d = ((n % 10) + ('0' as nat)) as char;
    if n < 10 {
        seq![d]
    } else {
        decimal(n / 10).push(d)
    }
}

/// `prefix:id`.
pub open spec fn stage_name_of(prefix: Seq<char>, id: nat) -> Seq<char> {
    prefix.push(':').add(decimal(id))
}

/// The text of one decimal digit.
fn digit_str(d: usize) -> (r: &'static str)
    requires
        d < 10,
    ensures
        r@ == seq![((d as nat) + ('0' as nat)) as char],
{
    proof {
        reveal_strlit("0");
        reveal_strlit("1");
        reveal_strlit("2");
        reveal_strlit("3");
        reveal_strlit("4");
        reveal_strlit("5");
        reveal_strlit("6");
        reveal_strlit("7");
        reveal_strlit("8");
        reveal_strlit("9");
    }
    if d == 0 {
        "0"
    } else if d == 1 {
        "1"
    } else if d == 2 {
        "2"
    } else if d == 3 {
        "3"
    } else if d == 4 {
        "4"
    } else if d == 5 {
        "5"
    } else if d == 6 {
        "6"
    } else if d == 7 {
        "7"
    } else if d == 8 {
        "8"
    } else {
        "9"
    }
}

/// Appends `n` in decimal.
fn push_decimal(s: &mut String, n: usize)
    ensures
        final(s)@ == old(s)@ + decimal(n as nat),
    decreases n,
{
    if n >= 10 {
        push_decimal(s, n / 10);
    }
    s.append(digit_str(n % 10));
    assert(s@ =~= old(s)@ + decimal(n as nat));
}

/// The name of a stage: `prefix:id`.
pub fn stage_name(prefix: &str, id: usize) -> (r: String)
    ensures
        r@ == stage_name_of(prefix@, id as nat),
{
    let mut s = String::from_str(prefix);
    proof {
        reveal_strlit(":");
    }
    s.append(":");
    push_decimal(&mut s, id);
    assert(s@ =~= stage_name_of(prefix@, id as nat));
    s
}

/// Hands out the per-process stage ids, each once.
#[derive(Debug)]
pub struct StageIds {
    next: usize,
}

impl StageIds {
    pub closed spec fn spec_next(&self) -> usize {
        self.next
    }

    pub fn new() -> (r: StageIds)
        ensures
            r.spec_next() == 0,
    {
        StageIds { next: 0 }
    }

    /// A fresh id: larger than every id handed out before.
    pub fn fresh(&mut self) -> (r: usize)
        requires
            old(self).spec_next() < usize::MAX,
        ensures
            r == old(self).spec_next(),
            final(self).spec_next() == r + 1,
    {
        let r = self.next;
        self.next = self.next + 1;
        r
    }
}

/// Progress of a stage that resumes after a restart: the executions counter
/// when the stage started on the current entry.
#[derive(Clone, Copy, Debug, PartialEq, Eq, Structural)]
pub struct ExecutionCountRestartHelper {
    pub started_at: Option<u64>,
}

impl ExecutionCountRestartHelper {
    pub fn new() -> (r: ExecutionCountRestartHelper)
        ensures
            r.started_at.is_none(),
    {
        ExecutionCountRestartHelper { started_at: None }
    }

    /// Runs of the target since the stage started; the first call marks the start.
    pub fn execs_since_progress_start(&mut self, executions: u64) -> (r: u64)
        ensures
            old(self).started_at.is_none() ==> r == 0 && final(self).started_at == Some(executions),
            old(self).started_at.is_some() ==> *final(self) == *old(self)
                && r == if executions >= old(self).started_at.unwrap() {
                    (executions - old(self).started_at.unwrap()) as u64
                } else {
                    0u64
                },
    {
        match self.started_at {
            None => {
                self.started_at = Some(executions);
                0
            },
            Some(start) => executions.saturating_sub(start),
        }
    }

    /// A stage always runs; a resumed one continues from its progress, a new
    /// one marks its start.
    pub fn should_restart(&mut self, executions: u64) -> (r: bool)
        ensures
            r,
            old(self).started_at.is_none() ==> final(self).started_at == Some(executions),
            old(self).started_at.is_some() ==> *final(self) == *old(self),
    {
        if self.started_at.is_none() {
            self.started_at = Some(executions);
        }
        true
    }

    /// Forgets the progress once the stage is done with an entry.
    pub fn clear_progress(&mut self)
        ensures
            final(self).started_at.is_none(),
    {
        self.started_at = None;
    }
}

/// Restart policy of stages that must not be retried on an entry that made
/// the worker die: the first attempt on an entry runs, a second one is skipped.
#[derive(Clone, Copy, Debug, PartialEq, Eq, Structural)]
pub struct RetryCountRestartHelper {
    pub attempted: Option<CorpusId>,
}

impl RetryCountRestartHelper {
    pub fn new() -> (r: RetryCountRestartHelper)
        ensures
            r.attempted.is_none(),
    {
        RetryCountRestartHelper { attempted: None }
    }

    /// Whether the stage should run on `current`: yes unless it was already
    /// attempted on it without being cleared.
    pub fn no_retry(&mut self, current: CorpusId) -> (r: bool)
        ensures
            r == (old(self).attempted != Some(current)),
            final(self).attempted == Some(current),
    {
        let again = match self.attempted {
            Some(id) => id.0 == current.0,
            None => false,
        };
        self.attempted = Some(current);
        !again
    }

    /// Forgets the attempt once the stage finished on the entry.
    pub fn clear_progress(&mut self)
        ensures
            final(self).attempted.is_none(),
    {
        self.attempted = None;
    }
}

} // verus!
