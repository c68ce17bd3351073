//! The message bus: a FIFO queue of packets and an ordered list of
//! connections.
//!
//! One `perform` cycle pops at most one packet from the queue head, hands it
//! to every connection in registration order, and pushes each connection's
//! emission (at most one per connection) to the queue tail. Emissions become
//! visible to subscribers on later cycles, never on the one that collected
//! them.

use vstd::prelude::*;
use crate::packet::Packet;
use crate::queue::Queue;
use crate::module::ModuleCell;
use crate::module::CellModel;
use crate::module::cell_input;
use crate::module::cell_output_rel;
use crate::packet::tag_of;
use crate::packet::PacketTag;

verus! {

/// What one connection does with one delivered packet: the default input
/// routing if a packet arrived, then one default output step.
pub open spec fn conn_cycle(
    pre: CellModel,
    post: CellModel,
    delivered: Option<Packet>,
    out: Option<Packet>,
) -> bool {
    match delivered {
        Some(p) => cell_output_rel(cell_input(pre, p), post, out),
        None => cell_output_rel(pre, post, out),
    }
}

/// The packets actually emitted, in connection order.
pub open spec fn emitted(outs: Seq<Option<Packet>>) -> Seq<Packet>
    decreases outs.len(),
{
    if outs.len() == 0 {
        Seq::empty()
    } else {
        let rest = emitted(outs.drop_last());
        match outs.last() {
            Some(p) => rest.push(p),
            None => rest,
        }
    }
}

/// A registered connection: the bus owns the module endpoint it serves.
pub struct BusConnection {
    /// The endpoint state this connection serves.
    pub cell: ModuleCell,
}

impl BusConnection {
    /// Registers a module endpoint as a connection.
    pub fn new(cell: ModuleCell) -> (r: Self)
        ensures
            r.cell@ == cell@,
    {
        BusConnection { cell }
    }

    /// One cycle of this connection: deliver the packet, if one was popped,
    /// then collect one emission.
    pub fn perform(&mut self, p: Option<Packet>) -> (r: Option<Packet>)
        ensures
            conn_cycle(old(self).cell@, final(self).cell@, p, r),
    {
        if let Some(pp) = p {
            self.cell.input(pp);
        }
        self.cell.output()
    }
}

/// The bus: a FIFO cable of packets and the connections in registration
/// order.
pub struct Bus {
    cable: Queue<Packet>,
    connections: Vec<BusConnection>,
}

impl Bus {
    /// The queued packets, the head of the queue first.
    pub closed spec fn cable_view(&self) -> Seq<Packet> {
        self.cable@
    }

    /// The registered connections, in registration order.
    pub closed spec fn conns_view(&self) -> Seq<BusConnection> {
        self.connections@
    }

    /// An empty bus.
    pub fn new() -> (r: Self)
        ensures
            r.cable_view().len() == 0,
            r.conns_view().len() == 0,
    {
        Bus { cable: Queue::new(), connections: Vec::new() }
    }

    /// Appends a connection; it will see packets after all earlier ones.
    pub fn connect(&mut self, conn: BusConnection)
        ensures
            final(self).conns_view() == old(self).conns_view().push(conn),
            final(self).cable_view() == old(self).cable_view(),
    {
        self.connections.push(conn);
    }

    /// Pushes a packet to the tail of the queue.
    pub fn send(&mut self, p: Packet)
        ensures
            final(self).cable_view() == old(self).cable_view().push(p),
            final(self).conns_view() == old(self).conns_view(),
    {
        self.cable.push(p);
    }

    /// Pops the packet at the head of the queue, if any.
    pub fn pop(&mut self) -> (r: Option<Packet>)
        ensures
            final(self).conns_view() == old(self).conns_view(),
            old(self).cable_view().len() == 0 ==> r is None && final(self).cable_view()
                == old(self).cable_view(),
            old(self).cable_view().len() > 0 ==> r == Some(old(self).cable_view()[0])
                && final(self).cable_view() == old(self).cable_view().drop_first(),
    {
        self.cable.consume()
    }

    /// How many connections are registered.
    pub fn con_count(&self) -> (r: usize)
        ensures
            r == self.conns_view().len(),
    {
        self.connections.len()
    }

    /// Reads the endpoint state of the connection at `i`.
    pub fn cell(&self, i: usize) -> (r: &ModuleCell)
        requires
            i < self.conns_view().len(),
        ensures
            r@ == self.conns_view()[i as int].cell@,
    {
        &self.connections[i].cell
    }

    /// One bus cycle: pops at most one packet, runs every connection on it
    /// in order, and queues the emissions behind the remaining packets.
    pub fn perform(&mut self)
        ensures
            final(self).conns_view().len() == old(self).conns_view().len(),
            ({
                let delivered = if old(self).cable_view().len() > 0 {
                    Some(old(self).cable_view()[0])
                } else {
                    None
                };
                let rest = if old(self).cable_view().len() > 0 {
                    old(self).cable_view().drop_first()
                } else {
                    old(self).cable_view()
                };
                exists|outs: Seq<Option<Packet>>|
                    {
                        &&& outs.len() == old(self).conns_view().len()
                        &&& forall|i: int|
                            0 <= i < outs.len() ==> conn_cycle(
                                #[trigger] old(self).conns_view()[i].cell@,
                                final(self).conns_view()[i].cell@,
                                delivered,
                                outs[i],
                            )
                        &&& final(self).cable_view() == rest + emitted(outs)
                    }
            }),
    {
        let next = self.cable.consume();
        let ghost delivered = next;
        let ghost rest = self.cable@;
        let mut work: Vec<BusConnection> = Vec::new();
        core::mem::swap(&mut work, &mut self.connections);
        let ghost orig = work@;
        let n = work.len();
        let ghost outs = Seq::<Option<Packet>>::empty();
        let mut i: usize = 0;
        proof {
            assert(self.cable@ =~= rest + emitted(outs));
            assert(work@ =~= orig.subrange(0, n as int));
        }
        while i < n
            invariant
                i <= n,
                n == orig.len(),
                orig == old(self).conns_view(),
                delivered == next,
                self.connections@.len() == i,
                work@ == orig.subrange(i as int, n as int),
                outs.len() == i,
                forall|j: int|
                    0 <= j < i ==> conn_cycle(
                        #[trigger] orig[j].cell@,
                        self.connections@[j].cell@,
                        delivered,
                        outs[j],
                    ),
                self.cable@ == rest + emitted(outs),
            decreases n - i,
        {
            let mut conn = work.remove(0);
            let ghost pre = conn;
            let out = conn.perform(next);
            let ghost post = conn;
            self.connections.push(conn);
            if let Some(out_packet) = out {
                self.cable.push(out_packet);
            }
            proof {
                let outs2 = outs.push(out);
                assert(outs2.drop_last() =~= outs);
                assert(outs2.last() == out);
                assert(self.cable@ =~= rest + emitted(outs2));
                assert(pre == orig[i as int]);
                assert(conn_cycle(pre.cell@, post.cell@, next, out));
                assert(outs2[i as int] == out);
                assert(self.connections@[i as int] == post);
                outs = outs2;
                assert(work@ =~= orig.subrange(i + 1, n as int));
            }
            i = i + 1;
        }
    }
}

/// Law (cancellation reaches everyone): when the cycle delivers the
/// terminate packet, every connection leaves the cycle with run-status
/// `RUN_TERM`, whatever else it did.
pub proof fn lemma_terminate_cycle(pre: CellModel, post: CellModel, out: Option<Packet>)
    requires
        conn_cycle(pre, post, Some(Packet::Terminate), out),
    ensures
        post.run_status == crate::module::RUN_TERM,
{
}

/// Law (drain): a cycle in which no connection emits adds nothing to the
/// queue: after as many cycles as there are queued packets, the queue is
/// empty.
pub proof fn lemma_emitted_none(outs: Seq<Option<Packet>>)
    requires
        forall|i: int| 0 <= i < outs.len() ==> outs[i] is None,
    ensures
        emitted(outs) == Seq::<Packet>::empty(),
    decreases outs.len(),
{
    if outs.len() > 0 {
        lemma_emitted_none(outs.drop_last());
    }
}

/// Law (fan-out): in one cycle, every connection whose filter accepts the
/// delivered packet's tag receives it exactly once: its inbox grows by
/// exactly that packet. Packets handled by the default routing (`Fire`,
/// `Stop`, `Terminate`) steer the run-status instead and reach no inbox.
pub proof fn lemma_bus_fanout(pre: CellModel, post: CellModel, p: Packet, out: Option<Packet>)
    requires
        conn_cycle(pre, post, Some(p), out),
        !(p is BackupCom),
        !(p is Stop),
        !(p is Terminate),
    ensures
        pre.accepts.contains(tag_of(p)) ==> post.inbox == pre.inbox.push(p),
        !pre.accepts.contains(tag_of(p)) ==> post.inbox == pre.inbox,
{
}

/// Law (ordering): two packets delivered on consecutive cycles, `a` first
/// and `b` second, land in an accepting subscriber's inbox in that order.
pub proof fn lemma_bus_ordering(
    s0: CellModel,
    s1: CellModel,
    s2: CellModel,
    a: Packet,
    b: Packet,
    out1: Option<Packet>,
    out2: Option<Packet>,
)
    requires
        conn_cycle(s0, s1, Some(a), out1),
        conn_cycle(s1, s2, Some(b), out2),
        !(a is BackupCom) && !(a is Stop) && !(a is Terminate),
        !(b is BackupCom) && !(b is Stop) && !(b is Terminate),
        s0.accepts.contains(tag_of(a)),
        s0.accepts.contains(tag_of(b)),
    ensures
        s2.inbox == s0.inbox.push(a).push(b),
{
}


impl Bus {
    /// Empties the inbox of the connection at `i` and hands its packets
    /// over, in arrival order.
    pub fn take_inbox(&mut self, i: usize) -> (r: Vec<Packet>)
        requires
            i < old(self).conns_view().len(),
        ensures
            final(self).cable_view() == old(self).cable_view(),
            final(self).conns_view().len() == old(self).conns_view().len(),
            forall|j: int|
                0 <= j < old(self).conns_view().len() && j != i ==> final(self).conns_view()[j]
                    == old(self).conns_view()[j],
            r@ == old(self).conns_view()[i as int].cell@.inbox,
            final(self).conns_view()[i as int].cell@ == (CellModel {
                inbox: Seq::empty(),
                ..old(self).conns_view()[i as int].cell@
            }),
    {
        let mut conn = self.connections.remove(i);
        let r = conn.cell.take_inbox();
        self.connections.insert(i, conn);
        proof {
            assert(final(self).conns_view() =~= old(self).conns_view().update(
                i as int,
                final(self).conns_view()[i as int],
            ));
        }
        r
    }

    /// Queues a packet on the message-stack of the connection at `i`; the
    /// bus will drain it on a later cycle.
    pub fn stack_push(&mut self, i: usize, p: Packet)
        requires
            i < old(self).conns_view().len(),
        ensures
            final(self).cable_view() == old(self).cable_view(),
            final(self).conns_view().len() == old(self).conns_view().len(),
            forall|j: int|
                0 <= j < old(self).conns_view().len() && j != i ==> final(self).conns_view()[j]
                    == old(self).conns_view()[j],
            final(self).conns_view()[i as int].cell@ == (CellModel {
                stack: old(self).conns_view()[i as int].cell@.stack.push(p),
                ..old(self).conns_view()[i as int].cell@
            }),
    {
        let mut conn = self.connections.remove(i);
        conn.cell.outlet(p);
        self.connections.insert(i, conn);
        proof {
            assert(final(self).conns_view() =~= old(self).conns_view().update(
                i as int,
                final(self).conns_view()[i as int],
            ));
        }
    }
}


impl Bus {
    /// Writes the run-status of the connection at `i`, as the worker's
    /// keeper reports it.
    pub fn set_status(&mut self, i: usize, status: u8)
        requires
            i < old(self).conns_view().len(),
        ensures
            final(self).cable_view() == old(self).cable_view(),
            final(self).conns_view().len() == old(self).conns_view().len(),
            forall|j: int|
                0 <= j < old(self).conns_view().len() && j != i ==> final(self).conns_view()[j]
                    == old(self).conns_view()[j],
            final(self).conns_view()[i as int].cell@ == (CellModel {
                run_status: status,
                ..old(self).conns_view()[i as int].cell@
            }),
    {
        let mut conn = self.connections.remove(i);
        conn.cell.run_status = status;
        self.connections.insert(i, conn);
        proof {
            assert(final(self).conns_view() =~= old(self).conns_view().update(
                i as int,
                final(self).conns_view()[i as int],
            ));
        }
    }

    /// Sets the alive flag of the connection at `i`; the next cycle will
    /// emit an alive packet for it.
    pub fn set_alive(&mut self, i: usize)
        requires
            i < old(self).conns_view().len(),
        ensures
            final(self).cable_view() == old(self).cable_view(),
            final(self).conns_view().len() == old(self).conns_view().len(),
            forall|j: int|
                0 <= j < old(self).conns_view().len() && j != i ==> final(self).conns_view()[j]
                    == old(self).conns_view()[j],
            final(self).conns_view()[i as int].cell@ == (CellModel {
                emit_alive: true,
                ..old(self).conns_view()[i as int].cell@
            }),
    {
        let mut conn = self.connections.remove(i);
        conn.cell.emit_alive = true;
        self.connections.insert(i, conn);
        proof {
            assert(final(self).conns_view() =~= old(self).conns_view().update(
                i as int,
                final(self).conns_view()[i as int],
            ));
        }
    }
}

} // verus!
