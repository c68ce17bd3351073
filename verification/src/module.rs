//! The module worker contract.
//!
//! Every module shares the same endpoint state: a name, a run-status cell, an
//! alive flag, a message-stack of outbound packets, and an inbox of packets
//! its filter accepted. The default input routing turns `Fire`, `Stop` and
//! `Terminate` packets into run-status transitions; everything else the
//! filter accepts lands in the inbox for the module's own inlet. The default
//! output emits an `Alive` packet whenever the alive flag is set, and
//! otherwise pops the tail of the message-stack.

use vstd::prelude::*;
use crate::packet::Packet;
use crate::packet::PacketTag;
use crate::packet::tag_of;
use crate::packet::alive_core;
use crate::packet::until_zero;
use crate::packet::chars_of;
use crate::packet::spec_backup_decode;
use crate::packet::BackupModel;
use crate::packet::BackupCommand;
use crate::packet::core_2_string;

verus! {

/// Run-status: the worker is waiting for work.
pub const RUN_IDLE: u8 = 0;

/// Run-status: a fire request is pending.
pub const RUN_FIRE: u8 = 1;

/// Run-status: the worker must exit.
pub const RUN_TERM: u8 = 2;

/// Run-status: the fire function is running.
pub const RUN_RUNNING: u8 = 3;

/// Run-status: the fire function failed and the worker exits early.
pub const RUN_EARLY_TERM: u8 = 4;

/// Run-status values a module may use for purposes of its own.
pub const RUN_MODULE_SPEC1: u8 = 5;

/// Run-status values a module may use for purposes of its own.
pub const RUN_MODULE_SPEC2: u8 = 6;

/// Seconds between two alive signals of a healthy worker.
pub const ALIVE_PACKET_EMISSION_TIMEOUT: u64 = 2;

/// An error raised by a module.
#[derive(Debug, Clone)]
pub struct ModError {
    message: String,
}

impl View for ModError {
    type V = Seq<char>;

    closed spec fn view(&self) -> Seq<char> {
        self.message@
    }
}

impl ModError {
    pub fn new(message: &str) -> (r: Self)
        ensures
            r@ == message@,
    {
        ModError { message: message.to_owned() }
    }

    /// The error message.
    pub fn message(&self) -> (r: &str)
        ensures
            r@ == self@,
    {
        self.message.as_str()
    }
}

/// Convenience type for results in the module protocol.
pub type ModResult<T> = Result<T, ModError>;

/// The shared endpoint state of one module.
pub struct ModuleCell {
    /// The stable, human-unique module name.
    pub name: String,
    /// The configuration file handed to the fire function, if any.
    pub config_path: Option<String>,
    /// The run-status cell the worker polls.
    pub run_status: u8,
    /// The alive flag a periodic emitter sets.
    pub emit_alive: bool,
    /// Outbound packets; the bus drains one per cycle from the tail.
    pub message_stack: Vec<Packet>,
    /// Packets the filter accepted, for the module's own inlet.
    pub inbox: Vec<Packet>,
    /// The tags the module's filter accepts into the inbox.
    pub accepts: Vec<PacketTag>,
}

/// The mathematical value of a [`ModuleCell`].
pub struct CellModel {
    pub name: Seq<char>,
    pub config: Option<Seq<char>>,
    pub run_status: u8,
    pub emit_alive: bool,
    pub stack: Seq<Packet>,
    pub inbox: Seq<Packet>,
    pub accepts: Seq<PacketTag>,
}

impl View for ModuleCell {
    type V = CellModel;

    open spec fn view(&self) -> CellModel {
        CellModel {
            name: self.name@,
            config: crate::packet::opt_view(self.config_path),
            run_status: self.run_status,
            emit_alive: self.emit_alive,
            stack: self.message_stack@,
            inbox: self.inbox@,
            accepts: self.accepts@,
        }
    }
}

/// Whether a payload is a fire command addressed to the named module.
pub open spec fn is_fire_for(core: Seq<u8>, name: Seq<char>) -> bool {
    spec_backup_decode(core) matches BackupModel::Fire(n) && n == Some(name)
}

/// Whether a stop payload addresses the named module: its zero-terminated
/// text, read from offset 0, is the name.
pub open spec fn is_stop_for(core: Seq<u8>, name: Seq<char>) -> bool {
    chars_of(until_zero(core)) == name
}

/// The state of a cell after the default input routing handled one packet:
/// a fire command addressed to the module sets `RUN_FIRE`; a stop addressed
/// to it, or a terminate, sets `RUN_TERM`; any other packet whose tag the
/// filter accepts is appended to the inbox; everything else changes nothing.
pub open spec fn cell_input(c: CellModel, p: Packet) -> CellModel {
    match p {
        Packet::BackupCom(core) => if is_fire_for(core@, c.name) {
            CellModel { run_status: RUN_FIRE, ..c }
        } else {
            c
        },
        Packet::Stop(core) => if is_stop_for(core@, c.name) {
            CellModel { run_status: RUN_TERM, ..c }
        } else {
            c
        },
        Packet::Terminate => CellModel { run_status: RUN_TERM, ..c },
        _ => if c.accepts.contains(tag_of(p)) {
            CellModel { inbox: c.inbox.push(p), ..c }
        } else {
            c
        },
    }
}

/// Whether `a` is an alive packet that names the given module.
pub open spec fn is_alive_packet_for(a: Packet, name: Seq<char>) -> bool {
    a matches Packet::Alive(c) && c@ == alive_core(name)
}

/// How one default-output step relates the cell before and after, and what
/// it hands to the bus: a set alive flag is consumed and an alive packet
/// leaves at once, overtaking the message-stack; otherwise the tail of the
/// stack leaves, or nothing.
pub open spec fn cell_output_rel(pre: CellModel, post: CellModel, out: Option<Packet>) -> bool {
    &&& post.name == pre.name
    &&& post.config == pre.config
    &&& post.run_status == pre.run_status
    &&& post.inbox == pre.inbox
    &&& post.accepts == pre.accepts
    &&& post.emit_alive == false
    &&& if pre.emit_alive {
        &&& out matches Some(a) && is_alive_packet_for(a, pre.name)
        &&& post.stack == pre.stack
    } else if pre.stack.len() > 0 {
        &&& out == Some(pre.stack.last())
        &&& post.stack == pre.stack.drop_last()
    } else {
        &&& out is None
        &&& post.stack == pre.stack
    }
}

impl ModuleCell {
    /// A fresh cell: idle, alive flag clear, empty stacks.
    pub fn new(name: String, config_path: Option<String>, accepts: Vec<PacketTag>) -> (r: Self)
        ensures
            r@.name == name@,
            r@.config == crate::packet::opt_view(config_path),
            r@.run_status == RUN_IDLE,
            r@.emit_alive == false,
            r@.stack.len() == 0,
            r@.inbox.len() == 0,
            r@.accepts == accepts@,
    {
        ModuleCell {
            name,
            config_path,
            run_status: RUN_IDLE,
            emit_alive: false,
            message_stack: Vec::new(),
            inbox: Vec::new(),
            accepts,
        }
    }

    /// True exactly when the filter accepts the tag into the inbox.
    fn accepts_tag(&self, t: PacketTag) -> (r: bool)
        ensures
            r == self@.accepts.contains(t),
    {
        let mut i: usize = 0;
        let n = self.accepts.len();
        while i < n
            invariant
                i <= n,
                n == self@.accepts.len(),
                forall|j: int| 0 <= j < i ==> self@.accepts[j] != t,
            decreases n - i,
        {
            if self.accepts[i] == t {
                return true;
            }
            i = i + 1;
        }
        false
    }

    /// The default input routing of the worker contract.
    pub fn input(&mut self, p: Packet)
        ensures
            final(self)@ == cell_input(old(self)@, p),
    {
        match p {
            Packet::BackupCom(core) => {
                if let BackupCommand::Fire(Some(s)) = BackupCommand::from_core(&core) {
                    if s == self.name {
                        self.run_status = RUN_FIRE;
                    }
                }
            },
            Packet::Stop(core) => {
                let core_name = core_2_string(&core);
                if core_name == self.name {
                    self.run_status = RUN_TERM;
                }
            },
            Packet::Terminate => {
                self.run_status = RUN_TERM;
            },
            _ => {
                if self.accepts_tag(p.tag()) {
                    self.inbox.push(p);
                }
            },
        }
    }

    /// The default output of the worker contract.
    pub fn output(&mut self) -> (r: Option<Packet>)
        ensures
            cell_output_rel(old(self)@, final(self)@, r),
    {
        if self.emit_alive {
            self.emit_alive = false;
            let alive = Packet::new_alive(self.name.as_str());
            Some(alive)
        } else {
            self.message_stack.pop()
        }
    }

    /// Queues a packet on the message-stack, for the bus to drain.
    pub fn outlet(&mut self, p: Packet)
        ensures
            final(self)@ == (CellModel { stack: old(self)@.stack.push(p), ..old(self)@ }),
    {
        self.message_stack.push(p);
    }
}

/// What the worker loop does next for a given run-status.
#[derive(Clone, Copy, Debug, PartialEq, Eq, Structural)]
pub enum WorkerAction {
    /// Sleep a tick and poll again.
    Sleep,
    /// Set `RUN_RUNNING` and invoke the fire function.
    RunFire,
    /// Leave the loop.
    Exit,
}

/// The worker loop decision for a run-status value.
pub open spec fn spec_worker_step(status: u8) -> WorkerAction {
    if status == RUN_TERM || status == RUN_EARLY_TERM {
        WorkerAction::Exit
    } else if status == RUN_FIRE {
        WorkerAction::RunFire
    } else {
        WorkerAction::Sleep
    }
}

/// One poll of the worker loop: what to do for the run-status just read.
pub fn worker_step(status: u8) -> (r: WorkerAction)
    ensures
        r == spec_worker_step(status),
{
    if status == RUN_TERM || status == RUN_EARLY_TERM {
        WorkerAction::Exit
    } else if status == RUN_FIRE {
        WorkerAction::RunFire
    } else {
        WorkerAction::Sleep
    }
}

/// Whether the alive emitter keeps running for a run-status value.
pub fn emitter_step(status: u8) -> (r: bool)
    ensures
        r == !(status == RUN_TERM || status == RUN_EARLY_TERM),
{
    !(status == RUN_TERM || status == RUN_EARLY_TERM)
}

impl ModuleCell {
    /// Settles a finished fire call: success queues a good notification and
    /// returns the worker to idle; failure queues an error notification and
    /// ends the worker early.
    pub fn conclude_fire(&mut self, outcome: ModResult<()>)
        ensures
            final(self)@.name == old(self)@.name,
            final(self)@.config == old(self)@.config,
            final(self)@.emit_alive == old(self)@.emit_alive,
            final(self)@.inbox == old(self)@.inbox,
            final(self)@.accepts == old(self)@.accepts,
            match outcome {
                Ok(()) => {
                    &&& final(self)@.run_status == RUN_IDLE
                    &&& final(self)@.stack.len() == old(self)@.stack.len() + 1
                    &&& final(self)@.stack.drop_last() == old(self)@.stack
                    &&& final(self)@.stack.last() matches Packet::NotifyGood(c) && c@
                        == crate::packet::notif_core(
                        "Successful End"@,
                        old(self)@.name,
                        "END"@,
                    )
                },
                Err(e) => {
                    &&& final(self)@.run_status == RUN_EARLY_TERM
                    &&& final(self)@.stack.len() == old(self)@.stack.len() + 1
                    &&& final(self)@.stack.drop_last() == old(self)@.stack
                    &&& final(self)@.stack.last() matches Packet::NotifyErr(c) && c@
                        == crate::packet::notif_core(e@, old(self)@.name, "RUN"@)
                },
            },
    {
        match outcome {
            Ok(()) => {
                let p = Packet::new_ng("Successful End", self.name.as_str(), "END");
                self.message_stack.push(p);
                self.run_status = RUN_IDLE;
            },
            Err(e) => {
                let p = Packet::new_ne(e.message(), self.name.as_str(), "RUN");
                self.message_stack.push(p);
                self.run_status = RUN_EARLY_TERM;
            },
        }
        proof {
            assert(final(self)@.stack.drop_last() =~= old(self)@.stack);
        }
    }
}

/// Law (cancellation): once a terminate packet has passed the default input,
/// the run-status is `RUN_TERM`, and the next worker poll exits; a worker
/// that failed early exits the same way.
pub proof fn lemma_terminate_stops_worker(c: CellModel)
    ensures
        cell_input(c, Packet::Terminate).run_status == RUN_TERM,
        spec_worker_step(RUN_TERM) is Exit,
        spec_worker_step(RUN_EARLY_TERM) is Exit,
{
}

/// Law (alive liveness): whenever the alive flag is set, the very next
/// output cycle hands the bus an alive packet naming the module.
pub proof fn lemma_alive_emitted(pre: CellModel, post: CellModel, out: Option<Packet>)
    requires
        pre.emit_alive,
        cell_output_rel(pre, post, out),
    ensures
        out matches Some(a) && is_alive_packet_for(a, pre.name),
{
}


impl ModuleCell {
    /// Empties the inbox and hands its packets over, in arrival order.
    pub fn take_inbox(&mut self) -> (r: Vec<Packet>)
        ensures
            r@ == old(self)@.inbox,
            final(self)@ == (CellModel { inbox: Seq::empty(), ..old(self)@ }),
    {
        let mut r: Vec<Packet> = Vec::new();
        core::mem::swap(&mut r, &mut self.inbox);
        r
    }
}

} // verus!
