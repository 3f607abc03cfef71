//! How a process opens its log next to other live processes.
//!
//! The steps are taken one at a time: the program does what a step asks for and
//! hands back what became of it. A process writes to the daily log only where it
//! has locked the very handle that it writes through, so that there is no moment
//! between the check and the opening, and where it has then seen that the daily
//! log's name still stands for that handle: another process may have rotated the
//! file away between the opening and the locking. Only the holder of that lock
//! rotates, and since its handle then names the rotated file, it opens and locks a
//! fresh one. A process that is refused the lock, or locks a file that has lost the
//! name, writes to a log of its own.

use crate::files::MAX_BYTES;
use vstd::prelude::*;

verus! {

/// What a process does next to open its log.
#[derive(Copy, Clone, Debug, PartialEq, Eq, Structural)]
pub enum OpenStep {
    /// Make the log directory.
    CreateDir,
    /// Sweep stale logs.
    Sweep,
    /// Open the daily log for appending, and make it where it is missing. Where it
    /// is `fresh`, its size does not matter any more.
    Open { fresh: bool },
    /// Lock the handle just opened, without waiting, and then look whether the
    /// daily log's name still stands for it.
    Lock { fresh: bool },
    /// Ask for the size of the daily log.
    Measure,
    /// Rename the daily log away and let go of the handle.
    Rotate,
    /// Make the log that carries the process id.
    Overflow,
    /// Nothing: this log is open.
    Done(Opened),
}

/// The log that a process writes to.
#[derive(Copy, Clone, Debug, PartialEq, Eq, Structural)]
pub enum Opened {
    /// The daily log.
    Daily,
    /// The log that carries the process id.
    Overflow,
    /// None: it could not be opened.
    Nothing,
}

/// What became of a step.
#[derive(Copy, Clone, Debug, PartialEq, Eq, Structural)]
pub enum OpenEvent {
    /// It was done.
    Done,
    /// It failed; of a lock, that it was refused.
    Failed,
    /// The lock was granted, but the daily log's name does not stand for the handle,
    /// as far as can be told.
    Moved,
    /// The daily log has this many bytes.
    Size(u64),
}

/// What tells a file from all others on the machine.
#[derive(Copy, Clone, Debug, PartialEq, Eq, Structural)]
pub struct FileId {
    pub device: u64,
    pub inode: u64,
}

impl OpenEvent {
    /// What has come of a lock that was granted on the file `handle`, where the daily
    /// log's name stands for the file `name`. Either is absent where it cannot be
    /// told, and `name` where it stands for no file.
    pub fn granted(handle: Option<FileId>, name: Option<FileId>) -> (r: OpenEvent)
        ensures
            r == (if handle is Some && handle == name {
                OpenEvent::Done
            } else {
                OpenEvent::Moved
            }),
    {
        match (handle, name) {
            (Some(handle), Some(name)) => if handle == name {
                OpenEvent::Done
            } else {
                OpenEvent::Moved
            },
            _ => OpenEvent::Moved,
        }
    }
}

impl OpenStep {
    /// The step after this one, once `event` has come of it. Where there are no
    /// `locks`, the log is measured before it is opened.
    pub open spec fn after(self, event: OpenEvent, locks: bool) -> OpenStep {
        let failed = event is Failed;
        match self {
            OpenStep::CreateDir => if failed {
                OpenStep::Done(Opened::Nothing)
            } else {
                OpenStep::Sweep
            },
            OpenStep::Sweep => if locks {
                OpenStep::Open { fresh: false }
            } else {
                OpenStep::Measure
            },
            OpenStep::Open { fresh } => if failed {
                OpenStep::Done(Opened::Nothing)
            } else if locks {
                OpenStep::Lock { fresh }
            } else {
                OpenStep::Done(Opened::Daily)
            },
            OpenStep::Lock { fresh } => if failed || event is Moved {
                OpenStep::Overflow
            } else if fresh {
                OpenStep::Done(Opened::Daily)
            } else {
                OpenStep::Measure
            },
            OpenStep::Measure => if event matches OpenEvent::Size(size) && size > MAX_BYTES {
                OpenStep::Rotate
            } else if locks {
                OpenStep::Done(Opened::Daily)
            } else {
                OpenStep::Open { fresh: true }
            },
            OpenStep::Rotate => OpenStep::Open { fresh: true },
            OpenStep::Overflow => if failed {
                OpenStep::Done(Opened::Nothing)
            } else {
                OpenStep::Done(Opened::Overflow)
            },
            OpenStep::Done(opened) => OpenStep::Done(opened),
        }
    }

    /// The first step.
    pub fn first() -> (r: OpenStep)
        ensures
            r == OpenStep::CreateDir,
    {
        OpenStep::CreateDir
    }

    /// The step after this one, once `event` has come of it.
    pub fn next(self, event: OpenEvent, locks: bool) -> (r: OpenStep)
        ensures
            r == self.after(event, locks),
    {
        let failed = match event {
            OpenEvent::Failed => true,
            _ => false,
        };
        let moved = match event {
            OpenEvent::Moved => true,
            _ => false,
        };
        match self {
            OpenStep::CreateDir => if failed {
                OpenStep::Done(Opened::Nothing)
            } else {
                OpenStep::Sweep
            },
            OpenStep::Sweep => if locks {
                OpenStep::Open { fresh: false }
            } else {
                OpenStep::Measure
            },
            OpenStep::Open { fresh } => if failed {
                OpenStep::Done(Opened::Nothing)
            } else if locks {
                OpenStep::Lock { fresh }
            } else {
                OpenStep::Done(Opened::Daily)
            },
            OpenStep::Lock { fresh } => if failed || moved {
                OpenStep::Overflow
            } else if fresh {
                OpenStep::Done(Opened::Daily)
            } else {
                OpenStep::Measure
            },
            OpenStep::Measure => {
                let large = match event {
                    OpenEvent::Size(size) => size > MAX_BYTES,
                    _ => false,
                };
                if large {
                    OpenStep::Rotate
                } else if locks {
                    OpenStep::Done(Opened::Daily)
                } else {
                    OpenStep::Open { fresh: true }
                }
            },
            OpenStep::Rotate => OpenStep::Open { fresh: true },
            OpenStep::Overflow => if failed {
                OpenStep::Done(Opened::Nothing)
            } else {
                OpenStep::Done(Opened::Overflow)
            },
            OpenStep::Done(opened) => OpenStep::Done(opened),
        }
    }

    /// How many steps can still be to come.
    spec fn left(self) -> int {
        match self {
            OpenStep::CreateDir => 9,
            OpenStep::Sweep => 8,
            OpenStep::Open { fresh } => if fresh {
                3
            } else {
                7
            },
            OpenStep::Lock { fresh } => if fresh {
                2
            } else {
                6
            },
            OpenStep::Measure => 5,
            OpenStep::Rotate => 4,
            OpenStep::Overflow => 1,
            OpenStep::Done(_) => 0,
        }
    }
}

/// The step that a process is at once `events` have come of its steps, from the
/// first on.
pub open spec fn step_after(events: Seq<OpenEvent>, locks: bool) -> OpenStep
    decreases events.len(),
{
    if events.len() == 0 {
        OpenStep::CreateDir
    } else {
        step_after(events.drop_last(), locks).after(events.last(), locks)
    }
}

/// The process holds a lock on the handle that it opened last, and saw once it had it
/// that the daily log's name stood for that handle. It has neither let go of the handle
/// nor opened another since.
pub open spec fn holds_lock(events: Seq<OpenEvent>, locks: bool) -> bool
    decreases events.len(),
{
    if events.len() == 0 {
        false
    } else {
        let before = events.drop_last();
        match step_after(before, locks) {
            OpenStep::Lock { .. } => !(events.last() is Failed || events.last() is Moved),
            OpenStep::Open { .. } => false,
            OpenStep::Rotate => false,
            _ => holds_lock(before, locks),
        }
    }
}

/// The process has rotated the daily log and not opened it since.
pub open spec fn rotated_away(events: Seq<OpenEvent>, locks: bool) -> bool
    decreases events.len(),
{
    if events.len() == 0 {
        false
    } else {
        let before = events.drop_last();
        match step_after(before, locks) {
            OpenStep::Rotate => true,
            OpenStep::Open { .. } => false,
            _ => rotated_away(before, locks),
        }
    }
}

/// The daily log was found too large and has not been rotated since.
pub open spec fn known_oversize(events: Seq<OpenEvent>, locks: bool) -> bool
    decreases events.len(),
{
    if events.len() == 0 {
        false
    } else {
        let before = events.drop_last();
        match step_after(before, locks) {
            OpenStep::Measure => events.last() matches OpenEvent::Size(size) && size > MAX_BYTES,
            OpenStep::Rotate => false,
            _ => known_oversize(before, locks),
        }
    }
}

/// Opening a log takes nine steps at most, whatever comes of them.
pub proof fn opening_ends(events: Seq<OpenEvent>, locks: bool)
    requires
        events.len() >= 9,
    ensures
        step_after(events, locks) is Done,
{
    steps_run_out(events, locks);
}

proof fn steps_run_out(events: Seq<OpenEvent>, locks: bool)
    ensures
        step_after(events, locks) is Done || step_after(events, locks).left() + events.len()
            <= 9,
    decreases events.len(),
{
    if events.len() > 0 {
        steps_run_out(events.drop_last(), locks);
    }
}

/// Where there are locks, a process measures, rotates or writes to the daily log only
/// while it holds the lock on the handle that it opened last, and only where that
/// handle was the daily log when it got the lock.
pub proof fn only_the_lock_holder_rotates_or_writes(events: Seq<OpenEvent>)
    ensures
        step_after(events, true) is Measure ==> holds_lock(events, true),
        step_after(events, true) is Rotate ==> holds_lock(events, true),
        step_after(events, true) == OpenStep::Done(Opened::Daily) ==> holds_lock(events, true),
    decreases events.len(),
{
    if events.len() > 0 {
        only_the_lock_holder_rotates_or_writes(events.drop_last());
    }
}

/// No process writes to a log that it has rotated away: it opens the daily log
/// again first.
pub proof fn rotated_logs_are_not_written(events: Seq<OpenEvent>, locks: bool)
    ensures
        step_after(events, locks) == OpenStep::Done(Opened::Daily) ==> !rotated_away(events, locks),
{
    opening_is_fresh_after_rotation(events, locks);
}

proof fn opening_is_fresh_after_rotation(events: Seq<OpenEvent>, locks: bool)
    ensures
        rotated_away(events, locks) ==> step_after(events, locks) == (OpenStep::Open {
            fresh: true,
        }),
    decreases events.len(),
{
    if events.len() > 0 {
        opening_is_fresh_after_rotation(events.drop_last(), locks);
    }
}

/// A daily log that was found too large is rotated before it is written to.
pub proof fn oversize_logs_are_rotated_first(events: Seq<OpenEvent>, locks: bool)
    ensures
        step_after(events, locks) == OpenStep::Done(Opened::Daily) ==> !known_oversize(
            events,
            locks,
        ),
{
    oversize_means_rotate(events, locks);
}

proof fn oversize_means_rotate(events: Seq<OpenEvent>, locks: bool)
    ensures
        known_oversize(events, locks) ==> step_after(events, locks) is Rotate,
    decreases events.len(),
{
    if events.len() > 0 {
        oversize_means_rotate(events.drop_last(), locks);
    }
}

/// A process goes without a log only where something that it needs for one has failed:
/// making the directory, opening the daily log, or making the log that carries the
/// process id. A log that cannot be measured, or not renamed, is opened all the same.
pub proof fn nothing_is_opened_only_after_a_failure(events: Seq<OpenEvent>, locks: bool)
    ensures
        step_after(events, locks) == OpenStep::Done(Opened::Nothing) ==> exists|i: int|
            0 <= i < events.len() && #[trigger] events[i] is Failed && ({
                let step = step_after(events.take(i), locks);
                step is CreateDir || step is Open || step is Overflow
            }),
    decreases events.len(),
{
    if events.len() > 0 {
        let before = events.drop_last();
        let last = events.len() - 1;
        nothing_is_opened_only_after_a_failure(before, locks);
        assert(events.take(last) =~= before);
        if step_after(events, locks) == OpenStep::Done(Opened::Nothing) {
            if step_after(before, locks) == OpenStep::Done(Opened::Nothing) {
                let i = choose|i: int|
                    0 <= i < before.len() && #[trigger] before[i] is Failed && ({
                        let step = step_after(before.take(i), locks);
                        step is CreateDir || step is Open || step is Overflow
                    });
                assert(events[i] is Failed);
                assert(events.take(i) =~= before.take(i));
            } else {
                assert(events[last] is Failed);
            }
        }
    }
}

/// The ways to end: without a log after a failure to make the directory, to open the daily
/// log or to make the overflow log; on the overflow log once it is made; on the daily log
/// once it is open where there are no locks, and where there are, once a granted lock is
/// confirmed on it and it is fresh, or is not known to be too large. Who has ended stays
/// there.
pub proof fn every_end_has_its_reason(step: OpenStep, event: OpenEvent, locks: bool)
    ensures
        step.after(event, locks) == OpenStep::Done(Opened::Nothing) <==> {
            ||| step == OpenStep::Done(Opened::Nothing)
            ||| event is Failed && (step is CreateDir || step is Open || step is Overflow)
        },
        step.after(event, locks) == OpenStep::Done(Opened::Overflow) <==> {
            ||| step == OpenStep::Done(Opened::Overflow)
            ||| step is Overflow && !(event is Failed)
        },
        step.after(event, locks) == OpenStep::Done(Opened::Daily) <==> {
            ||| step == OpenStep::Done(Opened::Daily)
            ||| step is Open && !(event is Failed) && !locks
            ||| step == (OpenStep::Lock { fresh: true }) && !(event is Failed) && !(event is Moved)
            ||| step is Measure && locks && !(event matches OpenEvent::Size(n) && n > 26_214_400)
        },
{
}

/// What leads to each step that is not the last. Every process that has its directory
/// sweeps; an overflow log is made exactly where a lock is refused or does not count; a log
/// is rotated exactly where it is measured and found above the cap; after a rotation the
/// daily log is opened again, whatever came of it.
pub proof fn every_step_has_its_reason(step: OpenStep, event: OpenEvent, locks: bool, fresh: bool)
    ensures
        !(step.after(event, locks) is CreateDir),
        step.after(event, locks) is Sweep <==> step is CreateDir && !(event is Failed),
        step.after(event, locks) == (OpenStep::Open { fresh: false }) <==> step is Sweep && locks,
        step.after(event, locks) == (OpenStep::Open { fresh: true }) <==> {
            ||| step is Rotate
            ||| step is Measure && !locks && !(event matches OpenEvent::Size(n) && n > 26_214_400)
        },
        step.after(event, locks) == (OpenStep::Lock { fresh }) <==> step == (OpenStep::Open {
            fresh,
        }) && !(event is Failed) && locks,
        step.after(event, locks) is Measure <==> {
            ||| step is Sweep && !locks
            ||| step == (OpenStep::Lock { fresh: false }) && !(event is Failed) && !(event is Moved)
        },
        step.after(event, locks) is Rotate <==> step is Measure && (event matches OpenEvent::Size(
            n,
        ) && n > 26_214_400),
        step.after(event, locks) is Overflow <==> step is Lock && (event is Failed
            || event is Moved),
{
}

/// Every process that opens a daily log, or falls back from one, has swept before.
pub proof fn every_process_sweeps(events: Seq<OpenEvent>, locks: bool)
    ensures
        ({
            let step = step_after(events, locks);
            step is CreateDir || step is Sweep || step == OpenStep::Done(Opened::Nothing) || exists|
                i: int,
            |
                0 <= i < events.len() && #[trigger] step_after(events.take(i), locks) is Sweep
        }),
    decreases events.len(),
{
    if events.len() > 0 {
        let before = events.drop_last();
        let last = events.len() - 1;
        every_process_sweeps(before, locks);
        assert(events.take(last) =~= before);
        if step_after(before, locks) is Sweep {
            assert(step_after(events.take(last), locks) is Sweep);
        } else if exists|i: int|
            0 <= i < before.len() && #[trigger] step_after(before.take(i), locks) is Sweep {
            let i = choose|i: int|
                0 <= i < before.len() && #[trigger] step_after(before.take(i), locks) is Sweep;
            assert(events.take(i) =~= before.take(i));
            assert(step_after(events.take(i), locks) is Sweep);
        }
    }
}

/// A process that meets no failure has the daily log in the end, with locks or without,
/// however large it was and whatever its size, known or not.
pub proof fn without_failures_the_daily_log_is_opened(events: Seq<OpenEvent>, locks: bool)
    requires
        events.len() >= 9,
        forall|i: int|
            0 <= i < events.len() ==> !(#[trigger] events[i] is Moved) && (events[i] is Failed
                ==> step_after(events.take(i), locks) is Measure || step_after(
                events.take(i),
                locks,
            ) is Rotate || step_after(events.take(i), locks) is Sweep),
    ensures
        step_after(events, locks) == OpenStep::Done(Opened::Daily),
{
    opening_ends(events, locks);
    failures_alone_lead_astray(events, locks);
}

proof fn failures_alone_lead_astray(events: Seq<OpenEvent>, locks: bool)
    requires
        forall|i: int|
            0 <= i < events.len() ==> !(#[trigger] events[i] is Moved) && (events[i] is Failed
                ==> step_after(events.take(i), locks) is Measure || step_after(
                events.take(i),
                locks,
            ) is Rotate || step_after(events.take(i), locks) is Sweep),
    ensures
        !(step_after(events, locks) is Overflow),
        step_after(events, locks) != OpenStep::Done(Opened::Nothing),
        step_after(events, locks) != OpenStep::Done(Opened::Overflow),
    decreases events.len(),
{
    if events.len() > 0 {
        let before = events.drop_last();
        let last = events.len() - 1;
        assert forall|i: int| 0 <= i < before.len() implies !(#[trigger] before[i] is Moved) && (
        before[i] is Failed ==> step_after(before.take(i), locks) is Measure || step_after(
            before.take(i),
            locks,
        ) is Rotate || step_after(before.take(i), locks) is Sweep) by {
            assert(events[i] == before[i]);
            assert(events.take(i) =~= before.take(i));
        }
        failures_alone_lead_astray(before, locks);
        assert(events.take(last) =~= before);
        assert(events[last] == events.last());
    }
}

}
