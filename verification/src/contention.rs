//! Several processes of one mode that open their logs at the same time.
//!
//! The model is of one log directory: which file the daily name stands for, who
//! has locked which file, and how far each process has come. Processes start, take
//! their steps in any order, and end at any moment. Being granted a lock and looking
//! whether the daily log's name still stands for the handle count as one step, at the
//! moment of the look: before it, the lock can only make others be refused, and a
//! process may be refused at any moment here. Nothing is assumed of the rest
//! of the machine but that it leaves the locks alone.

use crate::open::{OpenEvent, OpenStep, Opened};
use vstd::prelude::*;

verus! {

/// A process that opens its log or has it open. `handle` is the file behind the
/// daily log that it opened last.
pub struct Process {
    pub step: OpenStep,
    pub handle: Option<nat>,
}

/// The state of a log directory. Files go by the order in which they were made.
pub struct Directory {
    /// The file that the daily log's name stands for.
    pub daily: Option<nat>,
    /// How many files were made.
    pub made: nat,
    /// The process that has locked a file.
    pub holders: Map<nat, nat>,
    /// The processes, by their ids.
    pub processes: Map<nat, Process>,
}

/// What happens to a log directory.
pub enum Move {
    /// A process starts.
    Start(nat),
    /// A process takes a step, and this comes of it.
    Step(nat, OpenEvent),
    /// A process ends.
    End(nat),
    /// The daily log's name is taken from its file, or given to another that was
    /// made before.
    Outside,
}

impl Process {
    /// The process must hold the lock on its handle.
    pub open spec fn is_holder(self) -> bool {
        self.step is Measure || self.step is Rotate || self.step == OpenStep::Done(Opened::Daily)
    }

    /// The process writes to the file `file` as its daily log.
    pub open spec fn writes(self, file: nat) -> bool {
        self.step == OpenStep::Done(Opened::Daily) && self.handle == Some(file)
    }
}

impl Directory {
    /// The daily log's name stands for the file of every process that measures, rotates
    /// or writes to the daily log.
    pub open spec fn name_is_kept(self) -> bool {
        forall|id: nat|
            #![trigger self.processes[id]]
            self.processes.contains_key(id) && self.processes[id].is_holder() ==> self.daily
                == self.processes[id].handle
    }

    /// A directory that no process uses.
    pub open spec fn idle(self) -> bool {
        &&& self.daily matches Some(file) ==> file < self.made
        &&& self.holders == Map::<nat, nat>::empty()
        &&& self.processes == Map::<nat, Process>::empty()
    }

    /// The locks once the process `id` has let go of its handle.
    pub open spec fn released(self, id: nat) -> Map<nat, nat> {
        match self.processes[id].handle {
            Some(file) => if self.holders.contains_key(file) && self.holders[file] == id {
                self.holders.remove(file)
            } else {
                self.holders
            },
            None => self.holders,
        }
    }

    /// What the step of the process `id` does to the directory and to its handle.
    pub open spec fn effect(self, next: Directory, id: nat, event: OpenEvent, handle: Option<nat>) -> bool {
        let me = self.processes[id];
        let failed = event is Failed;
        match me.step {
            // A sweep may take the daily log's file from its name.
            OpenStep::Sweep => {
                &&& next.daily == self.daily || next.daily is None
                &&& next.made == self.made
                &&& next.holders == self.holders
                &&& handle == me.handle
            },
            // Opening finds the file behind the name, or makes one.
            OpenStep::Open { .. } => if failed {
                &&& next.daily == self.daily
                &&& next.made == self.made
                &&& next.holders == self.holders
                &&& handle == me.handle
            } else {
                &&& next.holders == self.holders
                &&& handle == next.daily
                &&& match self.daily {
                    Some(file) => next.daily == Some(file) && next.made == self.made,
                    None => next.daily == Some(self.made) && next.made == self.made + 1,
                }
            },
            // A lock is granted only on a file that nobody else has locked. It counts
            // only where the daily log's name still stands for that file.
            OpenStep::Lock { .. } => {
                &&& next.daily == self.daily
                &&& next.made == self.made
                &&& handle == me.handle
                &&& if failed || event is Moved {
                    next.holders == self.holders
                } else {
                    let file = me.handle->0;
                    &&& me.handle is Some
                    &&& self.daily == me.handle
                    &&& self.holders.contains_key(file) ==> self.holders[file] == id
                    &&& next.holders == self.holders.insert(file, id)
                }
            },
            // Rotating takes the file from its name, unless the renaming fails, and
            // lets go of the handle, with the lock on it.
            OpenStep::Rotate => {
                &&& next.daily == self.daily || next.daily is None
                &&& next.made == self.made
                &&& next.holders == self.released(id)
                &&& handle is None
            },
            _ => {
                &&& next.daily == self.daily
                &&& next.made == self.made
                &&& next.holders == self.holders
                &&& handle == me.handle
            },
        }
    }

    /// The move `m` can lead from here to `next`.
    pub open spec fn leads_to(self, m: Move, next: Directory) -> bool {
        match m {
            Move::Start(id) => {
                &&& !self.processes.contains_key(id)
                &&& next.daily == self.daily
                &&& next.made == self.made
                &&& next.holders == self.holders
                &&& next.processes == self.processes.insert(
                    id,
                    Process { step: OpenStep::CreateDir, handle: None },
                )
            },
            Move::Step(id, event) => {
                &&& self.processes.contains_key(id)
                &&& next.processes.contains_key(id)
                &&& next.processes[id].step == self.processes[id].step.after(event, true)
                &&& next.processes == self.processes.insert(id, next.processes[id])
                &&& self.effect(next, id, event, next.processes[id].handle)
            },
            Move::End(id) => {
                &&& self.processes.contains_key(id)
                &&& next.daily == self.daily
                &&& next.made == self.made
                &&& next.holders == self.released(id)
                &&& next.processes == self.processes.remove(id)
            },
            Move::Outside => {
                &&& next.daily matches Some(file) ==> file < self.made
                &&& next.made == self.made
                &&& next.holders == self.holders
                &&& next.processes == self.processes
            },
        }
    }

    /// Every process that has been granted a lock still holds it.
    pub open spec fn locks_are_held(self) -> bool {
        forall|id: nat|
            #![trigger self.processes[id]]
            self.processes.contains_key(id) && self.processes[id].is_holder() ==> {
                &&& self.processes[id].handle is Some
                &&& self.holders.contains_key(self.processes[id].handle->0)
                &&& self.holders[self.processes[id].handle->0] == id
            }
    }
}

/// The move `m` leaves the daily log's name alone, unless it is a process's own opening
/// or rotating: it comes from no outside, and is no sweep that takes the name away.
pub open spec fn is_quiet(state: Directory, m: Move, next: Directory) -> bool {
    match m {
        Move::Step(id, _) => state.processes[id].step is Sweep ==> next.daily == state.daily,
        Move::Outside => false,
        _ => true,
    }
}

/// `states` is a history of a log directory, from a moment when nobody used it on,
/// in which `moves` happened one after the other.
pub open spec fn is_history(states: Seq<Directory>, moves: Seq<Move>) -> bool {
    &&& states.len() == moves.len() + 1
    &&& states[0].idle()
    &&& forall|i: int|
        #![trigger moves[i]]
        0 <= i < moves.len() ==> states[i].leads_to(moves[i], states[i + 1])
}

/// `states` is a history in which nothing but the processes' own opening and rotating
/// touches the daily log's name.
pub open spec fn is_quiet_history(states: Seq<Directory>, moves: Seq<Move>) -> bool {
    &&& is_history(states, moves)
    &&& forall|i: int|
        #![trigger moves[i]]
        0 <= i < moves.len() ==> is_quiet(states[i], moves[i], states[i + 1])
}

/// At every moment, every process that measures, rotates or writes to the daily log
/// holds the lock on the file that it opened.
pub proof fn locks_are_always_held(states: Seq<Directory>, moves: Seq<Move>, i: int)
    requires
        is_history(states, moves),
        0 <= i < states.len(),
    ensures
        states[i].locks_are_held(),
    decreases i,
{
    if i > 0 {
        locks_are_always_held(states, moves, i - 1);
        moves_keep_locks(states[i - 1], moves[i - 1], states[i]);
    }
}

proof fn moves_keep_locks(state: Directory, m: Move, next: Directory)
    requires
        state.locks_are_held(),
        state.leads_to(m, next),
    ensures
        next.locks_are_held(),
{
    assert forall|id: nat|
        #![trigger next.processes[id]]
        next.processes.contains_key(id) && next.processes[id].is_holder() implies {
        &&& next.processes[id].handle is Some
        &&& next.holders.contains_key(next.processes[id].handle->0)
        &&& next.holders[next.processes[id].handle->0] == id
    } by {
        let _ = state.processes[id];
        match m {
            Move::Step(other, _) => {
                let _ = state.processes[other];
            },
            Move::End(other) => {
                let _ = state.processes[other];
            },
            _ => {},
        }
    }
}

/// In a quiet history, the daily log's name stands at every moment for the file of every
/// process that measures, rotates or writes to the daily log.
pub proof fn the_name_is_always_kept(states: Seq<Directory>, moves: Seq<Move>, i: int)
    requires
        is_quiet_history(states, moves),
        0 <= i < states.len(),
    ensures
        states[i].name_is_kept(),
    decreases i,
{
    if i > 0 {
        the_name_is_always_kept(states, moves, i - 1);
        locks_are_always_held(states, moves, i - 1);
        quiet_moves_keep_the_name(states[i - 1], moves[i - 1], states[i]);
    }
}

proof fn quiet_moves_keep_the_name(state: Directory, m: Move, next: Directory)
    requires
        state.locks_are_held(),
        state.name_is_kept(),
        state.leads_to(m, next),
        is_quiet(state, m, next),
    ensures
        next.name_is_kept(),
{
    assert forall|id: nat|
        #![trigger next.processes[id]]
        next.processes.contains_key(id) && next.processes[id].is_holder() implies next.daily
        == next.processes[id].handle by {
        let _ = state.processes[id];
        match m {
            Move::Step(other, _) => {
                let _ = state.processes[other];
            },
            _ => {},
        }
    }
}

/// No two processes ever write to the same file as their daily log.
pub proof fn live_logs_are_never_shared(
    states: Seq<Directory>,
    moves: Seq<Move>,
    i: int,
    one: nat,
    other: nat,
    file: nat,
)
    requires
        is_history(states, moves),
        0 <= i < states.len(),
        states[i].processes.contains_key(one),
        states[i].processes.contains_key(other),
        states[i].processes[one].writes(file),
        states[i].processes[other].writes(file),
    ensures
        one == other,
{
    locks_are_always_held(states, moves, i);
}

/// No process rotates a log away that another one writes to, in a quiet history. Where
/// the daily log's name was touched from outside or by a sweep, that still holds as
/// long as the name stands for the file that the process has locked.
pub proof fn rotation_spares_live_logs(
    states: Seq<Directory>,
    moves: Seq<Move>,
    i: int,
    one: nat,
    other: nat,
    file: nat,
)
    requires
        is_history(states, moves),
        0 <= i < states.len(),
        states[i].processes.contains_key(one),
        states[i].processes[one].step is Rotate,
        is_quiet_history(states, moves) || states[i].daily == states[i].processes[one].handle,
        states[i].processes.contains_key(other),
        states[i].processes[other].writes(file),
    ensures
        states[i].daily != Some(file),
{
    locks_are_always_held(states, moves, i);
    if is_quiet_history(states, moves) {
        the_name_is_always_kept(states, moves, i);
    }
    if states[i].daily == Some(file) {
        let _ = states[i].processes[one];
        let _ = states[i].processes[other];
    }
}

/// No live log is orphaned in a quiet history: the file that a process writes to as its
/// daily log is the one behind the daily log's name.
pub proof fn live_logs_are_never_orphaned(
    states: Seq<Directory>,
    moves: Seq<Move>,
    i: int,
    one: nat,
    file: nat,
)
    requires
        is_quiet_history(states, moves),
        0 <= i < states.len(),
        states[i].processes.contains_key(one),
        states[i].processes[one].writes(file),
    ensures
        states[i].daily == Some(file),
{
    the_name_is_always_kept(states, moves, i);
}

}
