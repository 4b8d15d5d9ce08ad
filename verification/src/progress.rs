//! Progress counters of a run: files and bytes, by outcome.
//!
//! A counter wraps on overflow, as an atomic addition does.

use crate::text::chars_of;
use crate::text::string_of;
use vstd::prelude::*;

verus! {

/// Four counters: what was taken on, and what came of it.
#[derive(Clone, Copy, Debug, PartialEq, Eq, Structural)]
pub struct ProgressPart {
    pub total: u64,
    pub success: u64,
    pub skipped: u64,
    pub failed: u64,
}

/// How the work on one file ended.
#[derive(Clone, Copy, Debug, PartialEq, Eq, Structural)]
pub enum Outcome {
    Success,
    Skipped,
    Failed,
}

/// What happens to one file in a stage: it is taken on, then it ends.
#[derive(Clone, Copy, Debug, PartialEq, Eq, Structural)]
pub enum FileEvent {
    Queued,
    Done(Outcome),
}

impl ProgressPart {
    /// The counters after one event.
    pub open spec fn after(self, event: FileEvent) -> ProgressPart {
        match event {
            FileEvent::Queued => ProgressPart { total: self.total.wrapping_add(1), ..self },
            FileEvent::Done(Outcome::Success) => ProgressPart {
                success: self.success.wrapping_add(1),
                ..self
            },
            FileEvent::Done(Outcome::Skipped) => ProgressPart {
                skipped: self.skipped.wrapping_add(1),
                ..self
            },
            FileEvent::Done(Outcome::Failed) => ProgressPart {
                failed: self.failed.wrapping_add(1),
                ..self
            },
        }
    }

    /// All counters at zero.
    pub open spec fn zero() -> ProgressPart {
        ProgressPart { total: 0, success: 0, skipped: 0, failed: 0 }
    }

    /// What is taken on and has not ended yet.
    pub open spec fn pending(self) -> int {
        self.total - self.success - self.skipped - self.failed
    }

    /// Whether every file taken on has ended.
    pub open spec fn balanced(self) -> bool {
        self.total == self.success + self.skipped + self.failed
    }

    pub fn new() -> (r: Self)
        ensures
            r == (ProgressPart { total: 0, success: 0, skipped: 0, failed: 0 }),
    {
        Self { total: 0, success: 0, skipped: 0, failed: 0 }
    }

    pub fn inc_total(&mut self, count: u64)
        ensures
            *final(self) == (ProgressPart {
                total: old(self).total.wrapping_add(count),
                ..*old(self)
            }),
    {
        self.total = self.total.wrapping_add(count);
    }

    pub fn inc_success(&mut self, count: u64)
        ensures
            *final(self) == (ProgressPart {
                success: old(self).success.wrapping_add(count),
                ..*old(self)
            }),
    {
        self.success = self.success.wrapping_add(count);
    }

    pub fn set_success(&mut self, count: u64)
        ensures
            *final(self) == (ProgressPart { success: count, ..*old(self) }),
    {
        self.success = count;
    }

    pub fn inc_skipped(&mut self, count: u64)
        ensures
            *final(self) == (ProgressPart {
                skipped: old(self).skipped.wrapping_add(count),
                ..*old(self)
            }),
    {
        self.skipped = self.skipped.wrapping_add(count);
    }

    pub fn inc_failed(&mut self, count: u64)
        ensures
            *final(self) == (ProgressPart {
                failed: old(self).failed.wrapping_add(count),
                ..*old(self)
            }),
    {
        self.failed = self.failed.wrapping_add(count);
    }

    pub fn total(&self) -> (r: u64)
        ensures
            r == self.total,
    {
        self.total
    }

    pub fn success(&self) -> (r: u64)
        ensures
            r == self.success,
    {
        self.success
    }

    pub fn skipped(&self) -> (r: u64)
        ensures
            r == self.skipped,
    {
        self.skipped
    }

    pub fn failed(&self) -> (r: u64)
        ensures
            r == self.failed,
    {
        self.failed
    }

    /// What is taken on and has not ended yet.
    pub fn remaining(&self) -> (r: u64)
        requires
            self.pending() >= 0,
        ensures
            r == self.pending(),
    {
        self.total - self.success - self.skipped - self.failed
    }

    /// What is taken on and has not ended yet, or `None` where the counters
    /// say that more has ended than was taken on.
    pub fn checked_remaining(&self) -> (r: Option<u64>)
        ensures
            match r {
                Some(n) => n == self.pending(),
                None => self.pending() < 0,
            },
    {
        let a = match self.total.checked_sub(self.success) {
            Some(a) => a,
            None => {
                return None;
            },
        };
        let b = match a.checked_sub(self.skipped) {
            Some(b) => b,
            None => {
                return None;
            },
        };
        b.checked_sub(self.failed)
    }

    pub fn reset(&mut self)
        ensures
            *final(self) == (ProgressPart { total: 0, success: 0, skipped: 0, failed: 0 }),
    {
        self.total = 0;
        self.success = 0;
        self.skipped = 0;
        self.failed = 0;
    }

    /// Counts one event.
    pub fn record(&mut self, event: FileEvent)
        ensures
            *final(self) == old(self).after(event),
    {
        match event {
            FileEvent::Queued => self.inc_total(1),
            FileEvent::Done(Outcome::Success) => self.inc_success(1),
            FileEvent::Done(Outcome::Skipped) => self.inc_skipped(1),
            FileEvent::Done(Outcome::Failed) => self.inc_failed(1),
        }
    }
}

/// The counters after the first `n` events, from zero.
pub open spec fn replay(events: Seq<FileEvent>, n: int) -> ProgressPart
    decreases n,
{
    if n <= 0 || n > events.len() {
        ProgressPart { total: 0, success: 0, skipped: 0, failed: 0 }
    } else {
        replay(events, n - 1).after(events[n - 1])
    }
}

/// How many of the first `n` events take a file on.
pub open spec fn queued_in(events: Seq<FileEvent>, n: int) -> int
    decreases n,
{
    if n <= 0 || n > events.len() {
        0
    } else {
        queued_in(events, n - 1) + if events[n - 1] == FileEvent::Queued {
            1int
        } else {
            0int
        }
    }
}

/// How many of the first `n` events end a file.
pub open spec fn done_in(events: Seq<FileEvent>, n: int) -> int {
    n - queued_in(events, n)
}

/// The counters count the events: after any events, fewer than 2^64, the
/// total is the number of files taken on and the three outcome counters add
/// up to the number of files that have ended.
pub proof fn lemma_replay_counts(events: Seq<FileEvent>, n: int)
    requires
        0 <= n <= events.len(),
        n <= u64::MAX,
    ensures
        replay(events, n).total == queued_in(events, n),
        replay(events, n).success + replay(events, n).skipped + replay(events, n).failed
            == done_in(events, n),
        0 <= queued_in(events, n) <= n,
    decreases n,
{
    if n > 0 {
        lemma_replay_counts(events, n - 1);
    }
}

/// At a stage boundary the counters balance: where every file that was taken
/// on has ended, the total is the sum of the files that succeeded, were
/// skipped and failed.
pub proof fn law_counters_balance(events: Seq<FileEvent>)
    requires
        events.len() <= u64::MAX,
        queued_in(events, events.len() as int) == done_in(events, events.len() as int),
    ensures
        replay(events, events.len() as int).balanced(),
        replay(events, events.len() as int).pending() == 0,
{
    lemma_replay_counts(events, events.len() as int);
}

/// While files are still under way the counters say how many: the total
/// less the three outcome counters is the number of files taken on and not
/// ended.
pub proof fn law_pending_counts_open_files(events: Seq<FileEvent>)
    requires
        events.len() <= u64::MAX,
    ensures
        replay(events, events.len() as int).pending() == queued_in(events, events.len() as int)
            - done_in(events, events.len() as int),
{
    lemma_replay_counts(events, events.len() as int);
}

/// The progress of a run: the step it is in, and its files and bytes.
#[derive(Debug)]
pub struct Progress {
    pub step: u8,
    pub step_name: String,
    pub files: ProgressPart,
    pub bytes: ProgressPart,
    pub total_bytes: u64,
    pub total_steps: u8,
}

impl Progress {
    pub fn new() -> (r: Self)
        ensures
            r.step == 0,
            r.step_name@ == Seq::<char>::empty(),
            r.files == ProgressPart::zero(),
            r.bytes == ProgressPart::zero(),
            r.total_bytes == 0,
            r.total_steps == 4,
    {
        Self {
            step: 0,
            step_name: String::new(),
            files: ProgressPart::new(),
            bytes: ProgressPart::new(),
            total_bytes: 0,
            total_steps: 4,
        }
    }

    pub fn new_with_step(step: u8, step_name: &str) -> (r: Self)
        ensures
            r.step == step,
            r.step_name@ == step_name@,
            r.files == ProgressPart::zero(),
            r.bytes == ProgressPart::zero(),
            r.total_bytes == 0,
            r.total_steps == 4,
    {
        Self {
            step,
            step_name: step_name.to_owned(),
            files: ProgressPart::new(),
            bytes: ProgressPart::new(),
            total_bytes: 0,
            total_steps: 4,
        }
    }

    /// Back to the start of a run: no step taken, five steps ahead.
    pub fn reset(&mut self)
        ensures
            final(self).step == 0,
            final(self).total_steps == 5,
            final(self).files == ProgressPart::zero(),
            final(self).bytes == ProgressPart::zero(),
            final(self).step_name == old(self).step_name,
            final(self).total_bytes == old(self).total_bytes,
    {
        self.bytes.reset();
        self.files.reset();
        self.step = 0;
        self.total_steps = 5;
    }

    pub fn set_total_steps(&mut self, num_steps: u8)
        ensures
            *final(self) == (Progress { total_steps: num_steps, ..*old(self) }),
    {
        self.total_steps = num_steps;
    }

    /// Enters the next step: the counters start from zero under a new name.
    pub fn next_step(&mut self, step_name: &str)
        ensures
            final(self).step == old(self).step.wrapping_add(1),
            final(self).step_name@ == step_name@,
            final(self).files == ProgressPart::zero(),
            final(self).bytes == ProgressPart::zero(),
            final(self).total_steps == old(self).total_steps,
            final(self).total_bytes == old(self).total_bytes,
    {
        self.step_name = step_name.to_owned();
        self.bytes.reset();
        self.files.reset();
        self.step = self.step.wrapping_add(1);
    }

    /// Whether every file of the step has ended.
    pub fn is_complete(&self) -> (r: bool)
        ensures
            r == (self.files.pending() <= 0),
    {
        match self.files.checked_remaining() {
            Some(n) => n == 0,
            None => true,
        }
    }

    /// Closes a step: its bytes go to the total of the run.
    pub fn finish_step(&mut self)
        ensures
            *final(self) == (Progress {
                total_bytes: old(self).total_bytes.wrapping_add(old(self).bytes.success),
                ..*old(self)
            }),
    {
        self.total_bytes = self.total_bytes.wrapping_add(self.bytes.success());
    }

    /// The step as it is shown: `[step/steps] name`.
    pub fn prefix(&self) -> (r: String)
        ensures
            r@ == seq!['['] + crate::number::decimal(self.step as nat) + seq!['/']
                + crate::number::decimal(self.total_steps as nat) + seq![']', ' ']
                + self.step_name@,
    {
        let mut out: Vec<char> = Vec::new();
        out.push('[');
        assert(out@ =~= seq!['[']);
        let a = crate::number::decimal_exec(self.step as u64);
        crate::text::append_chars(&mut out, a.as_slice());
        out.push('/');
        let b = crate::number::decimal_exec(self.total_steps as u64);
        crate::text::append_chars(&mut out, b.as_slice());
        out.push(']');
        out.push(' ');
        let name = chars_of(self.step_name.as_str());
        crate::text::append_chars(&mut out, name.as_slice());
        assert(out@ =~= seq!['['] + crate::number::decimal(self.step as nat) + seq!['/']
            + crate::number::decimal(self.total_steps as nat) + seq![']', ' '] + self.step_name@);
        string_of(out.as_slice())
    }
}

} // verus!
