//! The daemon's decision core: translating control frames into bus
//! activity, feeding the manager's outbound packets to its bus connection,
//! and absorbing the alive packets that the supervision connection
//! collected.
//!
//! The surrounding loop lives with the caller: it binds the listener, reads
//! one frame per connection, samples the clock, drives one bus cycle per
//! iteration, and sleeps between iterations.

use vstd::prelude::*;
use crate::packet::Packet;
use crate::packet::PacketCore;
use crate::packet::field_chars;
use crate::packet::fitted;
use vstd::utf8::encode_utf8;
use crate::tcpmessages::TcpCommand;
use crate::tcpmessages::TcpCommandList;
use crate::tcpmessages::TcpModel;
use crate::tcpmessages::spec_tcp_decode;
use crate::modulemanager::ModuleManager;
use crate::modulemanager::ModSpwned;
use crate::modulemanager::is_fire_request;
use crate::modulemanager::spec_status;
use crate::modulemanager::spec_stamped;
use crate::module::CellModel;
use crate::bus::Bus;
use crate::modulemanagerconfig::ModuleManagerConfig;

verus! {

/// An error that ends the daemon.
#[derive(Debug, Clone)]
pub struct DaemonError {
    message: String,
    code: u64,
}

impl DaemonError {
    pub fn new(message: String, code: u64) -> (r: Self)
        ensures
            r.spec_message() == message@,
            r.spec_code() == code,
    {
        DaemonError { message, code }
    }

    /// The error message.
    pub fn message(&self) -> (r: &str)
        ensures
            r@ == self.spec_message(),
    {
        self.message.as_str()
    }

    /// The error code.
    pub fn code(&self) -> (r: u64)
        ensures
            r == self.spec_code(),
    {
        self.code
    }
}

/// The spec-level fields of a [`DaemonError`].
impl DaemonError {
    pub closed spec fn spec_message(&self) -> Seq<char> {
        self.message@
    }

    pub closed spec fn spec_code(&self) -> u64 {
        self.code
    }
}

pub type DaemonResult<T> = Result<T, DaemonError>;

/// The address the control listener binds.
#[derive(Debug, Clone)]
pub struct DaemonConfigAcceptIp(pub String);

/// The port the control listener binds.
#[derive(Debug, Clone)]
pub struct DaemonConfigTcpPort(pub u64);

/// How verbose the daemon is.
#[derive(Debug, Clone)]
pub struct DaemonConfigLogLevel(pub String);

/// The daemon's configuration.
#[derive(Debug, Clone)]
pub struct DaemonConfig {
    pub port: DaemonConfigTcpPort,
    pub ip: DaemonConfigAcceptIp,
    pub log_level: DaemonConfigLogLevel,
    pub module_manager: ModuleManagerConfig,
}

/// What one control frame asked the daemon to do.
pub enum ControlOutcome {
    /// Print these lines.
    Lines(Vec<String>),
    /// Print this status line.
    StatusLine(String),
    /// A packet was queued on the bus.
    Sent,
    /// The terminate packet was queued; the loop should end.
    Terminated,
    /// The frame carried no known command.
    Ignored,
}

/// Whether a packet is a stop request addressed to the named module.
pub open spec fn is_stop_request(p: Packet, n: Seq<char>) -> bool {
    p matches Packet::Stop(c) && c@ == fitted(encode_utf8(n), 1024)
}

/// Handles one control frame, as the table of the control channel says:
/// list and status requests read the manager and return printable text;
/// fire, stop and terminate queue the matching packet on the bus; anything
/// else is ignored.
pub fn process_frame(manager: &ModuleManager, bus: &mut Bus, core: &PacketCore) -> (r:
    ControlOutcome)
    ensures
        final(bus).conns_view() == old(bus).conns_view(),
        match spec_tcp_decode(core@) {
            TcpModel::ListRunning => {
                &&& final(bus).cable_view() == old(bus).cable_view()
                &&& r matches ControlOutcome::Lines(v) && v@.len() == manager.spwned@.len()
                    && (forall|i: int|
                    0 <= i < v@.len() ==> #[trigger] v@[i] == manager.spwned@[i].name)
            },
            TcpModel::ListLoaded => {
                &&& final(bus).cable_view() == old(bus).cable_view()
                &&& r matches ControlOutcome::Lines(v) && v@.len() == manager.modules@.len()
                    && (forall|i: int|
                    0 <= i < v@.len() ==> #[trigger] v@[i] == manager.modules@[i].name)
            },
            TcpModel::Status(n) => {
                &&& final(bus).cable_view() == old(bus).cable_view()
                &&& r matches ControlOutcome::StatusLine(s) && s@ == spec_status(
                    manager.spwned@,
                    manager.modules@,
                    n,
                )
            },
            TcpModel::Stop(n) => {
                &&& final(bus).cable_view().len() == old(bus).cable_view().len() + 1
                &&& final(bus).cable_view().drop_last() == old(bus).cable_view()
                &&& is_stop_request(final(bus).cable_view().last(), n)
                &&& r is Sent
            },
            TcpModel::Terminate => {
                &&& final(bus).cable_view().len() == old(bus).cable_view().len() + 1
                &&& final(bus).cable_view().drop_last() == old(bus).cable_view()
                &&& final(bus).cable_view().last() is Terminate
                &&& r is Terminated
            },
            TcpModel::Fire(n) => {
                &&& final(bus).cable_view().len() == old(bus).cable_view().len() + 1
                &&& final(bus).cable_view().drop_last() == old(bus).cable_view()
                &&& is_fire_request(final(bus).cable_view().last(), n)
                &&& r is Sent
            },
            TcpModel::Undef => {
                &&& final(bus).cable_view() == old(bus).cable_view()
                &&& r is Ignored
            },
        },
{
    let cmd = TcpCommand::from_core(core);
    match cmd {
        TcpCommand::List(TcpCommandList::Running) => {
            let v = match manager.get_spawned_list() {
                Ok(v) => v,
                Err(_) => Vec::new(),
            };
            ControlOutcome::Lines(v)
        },
        TcpCommand::List(TcpCommandList::Loaded) => {
            let v = match manager.get_module_list() {
                Ok(v) => v,
                Err(_) => Vec::new(),
            };
            ControlOutcome::Lines(v)
        },
        TcpCommand::Status(name) => {
            ControlOutcome::StatusLine(manager.get_status(name.as_str()))
        },
        TcpCommand::Stop(name) => {
            bus.send(Packet::new_stop(name.as_str()));
            proof {
                assert(final(bus).cable_view().drop_last() =~= old(bus).cable_view());
            }
            ControlOutcome::Sent
        },
        TcpCommand::Terminate => {
            bus.send(Packet::new_term());
            proof {
                assert(final(bus).cable_view().drop_last() =~= old(bus).cable_view());
            }
            ControlOutcome::Terminated
        },
        TcpCommand::Fire(name) => {
            let p = Packet::BackupCom(crate::packet::BackupCommand::Fire(Some(name)).to_core());
            bus.send(p);
            proof {
                assert(final(bus).cable_view().drop_last() =~= old(bus).cable_view());
            }
            ControlOutcome::Sent
        },
        TcpCommand::Undef => ControlOutcome::Ignored,
    }
}

/// Moves at most one pending manager packet onto the manager's bus
/// connection, for the next bus cycle to drain.
pub fn feed_supervisor(manager: &mut ModuleManager, bus: &mut Bus, sup_index: usize)
    requires
        sup_index < old(bus).conns_view().len(),
    ensures
        final(manager).modules == old(manager).modules,
        final(manager).spwned == old(manager).spwned,
        final(manager).respawn_duration == old(manager).respawn_duration,
        final(bus).cable_view() == old(bus).cable_view(),
        final(bus).conns_view().len() == old(bus).conns_view().len(),
        forall|j: int|
            0 <= j < old(bus).conns_view().len() && j != sup_index ==> final(bus).conns_view()[j]
                == old(bus).conns_view()[j],
        old(manager).output@.len() == 0 ==> final(manager).output == old(manager).output
            && final(bus).conns_view() == old(bus).conns_view(),
        old(manager).output@.len() > 0 ==> final(manager).output@ == old(
            manager,
        ).output@.drop_first() && final(bus).conns_view()[sup_index as int].cell@ == (CellModel {
            stack: old(bus).conns_view()[sup_index as int].cell@.stack.push(
                old(manager).output@[0],
            ),
            ..old(bus).conns_view()[sup_index as int].cell@
        }),
{
    match manager.take_output() {
        Some(p) => {
            bus.stack_push(sup_index, p);
        },
        None => {},
    }
}

/// The name an alive packet carries; any other packet carries none.
pub open spec fn alive_name_of(p: Packet) -> Option<Seq<char>> {
    match p {
        Packet::Alive(c) => Some(field_chars(c@, 5, 1024)),
        _ => None,
    }
}

/// Every descriptor stamped at `now` where it bears the name.
pub open spec fn stamp_all(ss: Seq<ModSpwned>, n: Seq<char>, now: u64) -> Seq<ModSpwned> {
    Seq::new(ss.len(), |i: int| spec_stamped(ss[i], n, now))
}

/// Every descriptor, stamped at `now` for every alive packet that names
/// it, in packet order.
pub open spec fn spec_absorb(ss: Seq<ModSpwned>, packets: Seq<Packet>, now: u64) -> Seq<ModSpwned>
    decreases packets.len(),
{
    if packets.len() == 0 {
        ss
    } else {
        let first = match alive_name_of(packets[0]) {
            Some(n) => stamp_all(ss, n, now),
            None => ss,
        };
        spec_absorb(first, packets.drop_first(), now)
    }
}

/// Empties the supervision connection's inbox and stamps, at `now`, the
/// last sign of life of every module an alive packet names.
pub fn absorb_alive(manager: &mut ModuleManager, bus: &mut Bus, sup_index: usize, now: u64)
    requires
        sup_index < old(bus).conns_view().len(),
    ensures
        final(manager).modules == old(manager).modules,
        final(manager).output == old(manager).output,
        final(manager).respawn_duration == old(manager).respawn_duration,
        final(bus).cable_view() == old(bus).cable_view(),
        final(bus).conns_view().len() == old(bus).conns_view().len(),
        forall|j: int|
            0 <= j < old(bus).conns_view().len() && j != sup_index ==> final(bus).conns_view()[j]
                == old(bus).conns_view()[j],
        final(bus).conns_view()[sup_index as int].cell@ == (CellModel {
            inbox: Seq::empty(),
            ..old(bus).conns_view()[sup_index as int].cell@
        }),
        final(manager).spwned@ == spec_absorb(
            old(manager).spwned@,
            old(bus).conns_view()[sup_index as int].cell@.inbox,
            now,
        ),
{
    let mut inbox = bus.take_inbox(sup_index);
    let ghost packets = inbox@;
    let n = inbox.len();
    let mut i: usize = 0;
    proof {
        assert(packets.subrange(0, 0) =~= Seq::<Packet>::empty());
        lemma_absorb_split(old(manager).spwned@, packets, 0, now);
    }
    while i < n
        invariant
            i <= n,
            n == packets.len(),
            inbox@ == packets.subrange(i as int, n as int),
            manager.modules == old(manager).modules,
            manager.output == old(manager).output,
            manager.respawn_duration == old(manager).respawn_duration,
            manager.spwned@ == spec_absorb(
                old(manager).spwned@,
                packets.subrange(0, i as int),
                now,
            ),
            bus.cable_view() == old(bus).cable_view(),
            bus.conns_view().len() == old(bus).conns_view().len(),
            forall|j: int|
                0 <= j < old(bus).conns_view().len() && j != sup_index ==> bus.conns_view()[j]
                    == old(bus).conns_view()[j],
            bus.conns_view()[sup_index as int].cell@ == (CellModel {
                inbox: Seq::empty(),
                ..old(bus).conns_view()[sup_index as int].cell@
            }),
        decreases n - i,
    {
        let p = inbox.remove(0);
        let ghost pre = manager.spwned@;
        match crate::packet::parse_alive(p) {
            Ok(name) => {
                manager.record_alive(name.as_str(), now);
            },
            Err(_) => {},
        }
        proof {
            assert(inbox@ =~= packets.subrange(i + 1, n as int));
            let upto = packets.subrange(0, i + 1);
            assert(upto.drop_first() =~= packets.subrange(1, i + 1));
            match alive_name_of(p) {
                Some(nm) => {
                    assert(manager.spwned@ =~= stamp_all(pre, nm, now));
                },
                None => {
                    assert(manager.spwned@ == pre);
                },
            }
            lemma_absorb_step(old(manager).spwned@, packets, i as int, now);
        }
        i = i + 1;
    }
    proof {
        assert(packets.subrange(0, n as int) =~= packets);
    }
}

/// Absorbing one more packet extends the fold by one step.
proof fn lemma_absorb_step(ss: Seq<ModSpwned>, packets: Seq<Packet>, i: int, now: u64)
    requires
        0 <= i < packets.len(),
    ensures
        spec_absorb(ss, packets.subrange(0, i + 1), now) == ({
            let pre = spec_absorb(ss, packets.subrange(0, i), now);
            match alive_name_of(packets[i]) {
                Some(n) => stamp_all(pre, n, now),
                None => pre,
            }
        }),
    decreases i,
{
    if i == 0 {
        let one = packets.subrange(0, 1);
        let ss2 = match alive_name_of(packets[0]) {
            Some(n) => stamp_all(ss, n, now),
            None => ss,
        };
        assert(one[0] == packets[0]);
        assert(spec_absorb(ss, one, now) == spec_absorb(ss2, one.drop_first(), now));
        assert(one.drop_first() =~= Seq::<Packet>::empty());
        assert(spec_absorb(ss2, one.drop_first(), now) == ss2);
        assert(packets.subrange(0, 0) =~= Seq::<Packet>::empty());
        assert(spec_absorb(ss, packets.subrange(0, 0), now) == ss);
    } else {
        let upto = packets.subrange(0, i + 1);
        let cur = packets.subrange(0, i);
        assert(upto[0] == packets[0]);
        assert(cur[0] == packets[0]);
        let tail = packets.drop_first();
        assert(upto.drop_first() =~= tail.subrange(0, i));
        assert(cur.drop_first() =~= tail.subrange(0, i - 1));
        assert(tail[i - 1] == packets[i]);
        let ss2 = match alive_name_of(packets[0]) {
            Some(n) => stamp_all(ss, n, now),
            None => ss,
        };
        assert(spec_absorb(ss, upto, now) == spec_absorb(ss2, upto.drop_first(), now));
        assert(spec_absorb(ss, cur, now) == spec_absorb(ss2, cur.drop_first(), now));
        lemma_absorb_step(ss2, tail, i - 1, now);
    }
}

/// Absorbing a prefix then the rest equals absorbing everything; stated
/// for the empty prefix it grounds the fold.
proof fn lemma_absorb_split(ss: Seq<ModSpwned>, packets: Seq<Packet>, i: int, now: u64)
    requires
        i == 0,
    ensures
        spec_absorb(ss, packets.subrange(0, 0), now) == ss,
{
    assert(packets.subrange(0, 0) =~= Seq::<Packet>::empty());
}


/// Law (a stop addresses one module): a stop request built for a clean
/// name sets the run-status of the module of that name to `RUN_TERM`, and
/// leaves a module of any other clean name untouched.
pub proof fn lemma_stop_request_stops(p: Packet, c: crate::module::CellModel, n: Seq<char>)
    requires
        is_stop_request(p, n),
        crate::packet::clean(n),
        n.len() <= 1024,
        crate::packet::clean(c.name),
        c.name.len() <= 1024,
    ensures
        c.name == n ==> crate::module::cell_input(c, p).run_status == crate::module::RUN_TERM,
        c.name != n ==> crate::module::cell_input(c, p) == c,
{
    crate::packet::lemma_field_store(n, 1024);
}

} // verus!
