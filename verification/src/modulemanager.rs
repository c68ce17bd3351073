//! The module manager: the loaded modules, the spawned workers'
//! descriptors, scheduled firing, and the supervision rules.
//!
//! The manager owns plain descriptors. The workers themselves run outside
//! it: the caller starts one worker per spawned descriptor, joins workers
//! the manager removes, and reports each join back through
//! [`ModuleManager::respawn`].

use vstd::prelude::*;
use crate::packet::Packet;
use crate::packet::PacketTag;
use crate::packet::notif_core;
use crate::module::ModResult;
use crate::module::ModuleCell;
use crate::modulemanagerconfig::Whence;
use crate::modulemanagerconfig::LocalTime;
use crate::modulemanagerconfig::ModuleManagerConfig;
use crate::modulemanagerconfig::whence_match;
use crate::bus::Bus;
use crate::bus::BusConnection;
use vstd::string::StringExecFns;

verus! {

/// A loaded module: its name, its optional configuration file, its
/// optional schedule, and the packet tags its inlet accepts.
pub struct ModuleManagerContainer {
    pub name: String,
    pub config: Option<String>,
    pub whence: Option<Whence>,
    pub accepts: Vec<PacketTag>,
}

/// The descriptor of a spawned worker.
pub struct ModSpwned {
    /// The index of its module in the loaded list.
    pub modules_index: usize,
    /// The module name, copied from the loaded list.
    pub name: String,
    /// When an alive packet of this module was last seen.
    pub last_time_seen_alive: u64,
    /// The minute in which this module was last fired by schedule.
    pub last_cycle: Option<u64>,
    /// The schedule, copied from the loaded list.
    pub whence: Option<Whence>,
}

/// The result of asking for a spawn by name.
pub enum ModSpawnState {
    Spawned,
    NotFound,
    Error(String),
}

/// How a joined worker had exited.
pub enum WorkerExit {
    /// The worker returned without an error.
    Clean,
    /// The worker returned the given error message.
    Failed(String),
    /// The worker panicked.
    Panicked,
}

/// The module manager.
pub struct ModuleManager {
    /// The descriptors of the spawned workers.
    pub spwned: Vec<ModSpwned>,
    /// The silence threshold in seconds: a worker quiet longer is respawned.
    pub respawn_duration: u64,
    /// Outbound packets, drained through the manager's bus connection.
    pub output: Vec<Packet>,
    /// The loaded modules.
    pub modules: Vec<ModuleManagerContainer>,
}

/// Copies an optional schedule.
fn clone_whence(w: &Option<Whence>) -> (r: Option<Whence>)
    ensures
        r == *w,
{
    match w {
        Some(x) => Some(Whence { hour: x.hour.clone(), min: x.min.clone() }),
        None => None,
    }
}

/// Copies an optional string.
fn clone_opt_string(s: &Option<String>) -> (r: Option<String>)
    ensures
        r == *s,
{
    match s {
        Some(x) => Some(x.clone()),
        None => None,
    }
}

/// Whether some loaded module bears the name.
pub open spec fn has_module(ms: Seq<ModuleManagerContainer>, n: Seq<char>) -> bool {
    exists|i: int| 0 <= i < ms.len() && ms[i].name@ == n
}

/// Whether some spawned descriptor bears the name.
pub open spec fn has_spawned(ss: Seq<ModSpwned>, n: Seq<char>) -> bool {
    exists|i: int| 0 <= i < ss.len() && ss[i].name@ == n
}

/// The status line for a module name: `Running` when spawned, `Loaded`
/// when only loaded, `Not found` otherwise.
pub open spec fn spec_status(
    ss: Seq<ModSpwned>,
    ms: Seq<ModuleManagerContainer>,
    n: Seq<char>,
) -> Seq<char> {
    if has_spawned(ss, n) {
        "Running"@
    } else if has_module(ms, n) {
        "Loaded"@
    } else {
        "Not found"@
    }
}

/// The first loaded module of the given name.
pub open spec fn find_module(ms: Seq<ModuleManagerContainer>, n: Seq<char>) -> Option<int>
    decreases ms.len(),
{
    if ms.len() == 0 {
        None
    } else if ms[0].name@ == n {
        Some(0)
    } else {
        match find_module(ms.drop_first(), n) {
            Some(i) => Some(i + 1),
            None => None,
        }
    }
}

/// The first spawned descriptor of the given name.
pub open spec fn find_spawned(ss: Seq<ModSpwned>, n: Seq<char>) -> Option<int>
    decreases ss.len(),
{
    if ss.len() == 0 {
        None
    } else if ss[0].name@ == n {
        Some(0)
    } else {
        match find_spawned(ss.drop_first(), n) {
            Some(i) => Some(i + 1),
            None => None,
        }
    }
}

/// `find_module` finds a well-formed witness exactly when one exists.
pub proof fn lemma_find_module(ms: Seq<ModuleManagerContainer>, n: Seq<char>)
    ensures
        find_module(ms, n) matches Some(i) ==> 0 <= i < ms.len() && ms[i].name@ == n,
        find_module(ms, n) is Some <==> has_module(ms, n),
    decreases ms.len(),
{
    if ms.len() > 0 {
        lemma_find_module(ms.drop_first(), n);
        if ms[0].name@ != n {
            if has_module(ms, n) {
                let w = choose|i: int| 0 <= i < ms.len() && ms[i].name@ == n;
                assert(ms.drop_first()[w - 1].name@ == n);
            }
            if has_module(ms.drop_first(), n) {
                let w = choose|i: int|
                    0 <= i < ms.drop_first().len() && ms.drop_first()[i].name@ == n;
                assert(ms[w + 1].name@ == n);
            }
        }
    }
}

/// `find_spawned` finds a well-formed witness exactly when one exists.
pub proof fn lemma_find_spawned(ss: Seq<ModSpwned>, n: Seq<char>)
    ensures
        find_spawned(ss, n) matches Some(i) ==> 0 <= i < ss.len() && ss[i].name@ == n,
        find_spawned(ss, n) is Some <==> has_spawned(ss, n),
    decreases ss.len(),
{
    if ss.len() > 0 {
        lemma_find_spawned(ss.drop_first(), n);
        if ss[0].name@ != n {
            if has_spawned(ss, n) {
                let w = choose|i: int| 0 <= i < ss.len() && ss[i].name@ == n;
                assert(ss.drop_first()[w - 1].name@ == n);
            }
            if has_spawned(ss.drop_first(), n) {
                let w = choose|i: int|
                    0 <= i < ss.drop_first().len() && ss.drop_first()[i].name@ == n;
                assert(ss[w + 1].name@ == n);
            }
        }
    }
}

/// Whether a schedule descriptor fires at the sampled local time: its
/// schedule matches the hour and the minute, and it has not already fired
/// in this minute. `None` reports an invalid schedule field.
pub open spec fn spec_should_fire(m: ModSpwned, now: LocalTime) -> Option<bool> {
    match m.whence {
        Some(w) => match whence_match(w, now.hour, now.min) {
            None => None,
            Some(mt) => Some(mt && m.last_cycle != Some(now.minute_stamp)),
        },
        None => Some(false),
    }
}

/// The descriptor after one scheduling pass: a fired module remembers the
/// minute.
pub open spec fn spec_fired(m: ModSpwned, now: LocalTime) -> ModSpwned {
    if spec_should_fire(m, now) == Some(true) {
        ModSpwned { last_cycle: Some(now.minute_stamp), ..m }
    } else {
        m
    }
}

/// The names of the descriptors that fire at the sampled time, in list
/// order.
pub open spec fn fired_names(ss: Seq<ModSpwned>, now: LocalTime) -> Seq<Seq<char>>
    decreases ss.len(),
{
    if ss.len() == 0 {
        Seq::empty()
    } else {
        let rest = fired_names(ss.drop_last(), now);
        if spec_should_fire(ss.last(), now) == Some(true) {
            rest.push(ss.last().name@)
        } else {
            rest
        }
    }
}

impl ModuleManager {
    /// A manager with no modules and the given silence threshold in
    /// seconds.
    pub fn new(respawn_duration: u64) -> (r: Self)
        ensures
            r.spwned@.len() == 0,
            r.output@.len() == 0,
            r.modules@.len() == 0,
            r.respawn_duration == respawn_duration,
    {
        ModuleManager {
            spwned: Vec::new(),
            respawn_duration,
            output: Vec::new(),
            modules: Vec::new(),
        }
    }

    /// Loads every module of a configuration, in order.
    pub fn from_config(conf: ModuleManagerConfig) -> (r: ModResult<Self>)
        ensures
            r matches Ok(m) && {
                &&& m.respawn_duration == conf.respawn_duration
                &&& m.spwned@.len() == 0
                &&& m.output@.len() == 0
                &&& m.modules@.len() == conf.modules@.len()
                &&& forall|i: int|
                    0 <= i < conf.modules@.len() ==> {
                        &&& (#[trigger] m.modules@[i]).name == conf.modules@[i].name
                        &&& m.modules@[i].config == conf.modules@[i].config
                        &&& m.modules@[i].whence == conf.modules@[i].whence
                        &&& m.modules@[i].accepts@ == crate::modules::spec_accepts_for(
                            conf.modules@[i].name@,
                        )
                    }
            },
    {
        let mut ret = ModuleManager::new(conf.respawn_duration);
        let mut defs = conf.modules;
        let ghost all = defs@;
        let mut i: usize = 0;
        let n = defs.len();
        while i < n
            invariant
                i <= n,
                n == all.len(),
                defs@ == all.subrange(i as int, n as int),
                ret.spwned@.len() == 0,
                ret.output@.len() == 0,
                ret.modules@.len() == i,
                forall|j: int|
                    0 <= j < i ==> {
                        &&& (#[trigger] ret.modules@[j]).name == all[j].name
                        &&& ret.modules@[j].config == all[j].config
                        &&& ret.modules@[j].whence == all[j].whence
                        &&& ret.modules@[j].accepts@ == crate::modules::spec_accepts_for(
                            all[j].name@,
                        )
                    },
                ret.respawn_duration == conf.respawn_duration,
            decreases n - i,
        {
            let d = defs.remove(0);
            let accepts = crate::modules::accepts_for(d.name.as_str());
            let c = ModuleManagerContainer {
                name: d.name,
                config: d.config,
                whence: d.whence,
                accepts,
            };
            ret.modules.push(c);
            proof {
                assert(defs@ =~= all.subrange(i + 1, n as int));
            }
            i = i + 1;
        }
        Ok(ret)
    }

    /// Appends one loaded module and returns the new count.
    pub fn load(
        &mut self,
        name: String,
        cyclewhence: Option<Whence>,
        config_filename: &Option<String>,
        accepts: Vec<PacketTag>,
    ) -> (r: ModResult<usize>)
        ensures
            final(self).spwned == old(self).spwned,
            final(self).output == old(self).output,
            final(self).respawn_duration == old(self).respawn_duration,
            final(self).modules@.len() == old(self).modules@.len() + 1,
            final(self).modules@.drop_last() == old(self).modules@,
            final(self).modules@.last().name == name,
            final(self).modules@.last().whence == cyclewhence,
            final(self).modules@.last().config == *config_filename,
            final(self).modules@.last().accepts == accepts,
            r matches Ok(v) && v == final(self).modules@.len(),
    {
        let config = clone_opt_string(config_filename);
        self.modules.push(
            ModuleManagerContainer { name, config, whence: cyclewhence, accepts },
        );
        proof {
            assert(final(self).modules@.drop_last() =~= old(self).modules@);
        }
        Ok(self.modules.len())
    }

    /// Records every loaded module as spawned, in order, with the given
    /// time as its last sign of life. The caller starts one worker per new
    /// descriptor.
    pub fn spawn_all(&mut self, now: u64) -> (r: ModResult<()>)
        ensures
            final(self).modules == old(self).modules,
            final(self).output == old(self).output,
            final(self).respawn_duration == old(self).respawn_duration,
            final(self).spwned@.len() == old(self).spwned@.len() + old(self).modules@.len(),
            forall|i: int|
                0 <= i < old(self).spwned@.len() ==> final(self).spwned@[i] == old(self).spwned@[i],
            forall|k: int|
                0 <= k < old(self).modules@.len() ==> {
                    let d = #[trigger] final(self).spwned@[old(self).spwned@.len() + k];
                    &&& d.modules_index == k
                    &&& d.name@ == old(self).modules@[k].name@
                    &&& d.last_time_seen_alive == now
                    &&& d.last_cycle is None
                    &&& d.whence == old(self).modules@[k].whence
                },
            r is Ok,
    {
        let n = self.modules.len();
        let mut dex: usize = 0;
        while dex < n
            invariant
                dex <= n,
                n == self.modules@.len(),
                self.modules == old(self).modules,
                self.output == old(self).output,
                self.respawn_duration == old(self).respawn_duration,
                self.spwned@.len() == old(self).spwned@.len() + dex,
                forall|i: int|
                    0 <= i < old(self).spwned@.len() ==> self.spwned@[i] == old(self).spwned@[i],
                forall|k: int|
                    0 <= k < dex ==> {
                        let d = #[trigger] self.spwned@[old(self).spwned@.len() + k];
                        &&& d.modules_index == k
                        &&& d.name@ == old(self).modules@[k].name@
                        &&& d.last_time_seen_alive == now
                        &&& d.last_cycle is None
                        &&& d.whence == old(self).modules@[k].whence
                    },
            decreases n - dex,
        {
            let name = self.modules[dex].name.clone();
            let whence = clone_whence(&self.modules[dex].whence);
            let spwn = ModSpwned {
                modules_index: dex,
                name,
                last_time_seen_alive: now,
                last_cycle: None,
                whence,
            };
            self.spwned.push(spwn);
            dex = dex + 1;
        }
        Ok(())
    }

    /// The names of the loaded modules, in load order.
    pub fn get_module_list(&self) -> (r: ModResult<Vec<String>>)
        ensures
            r matches Ok(v) && v@.len() == self.modules@.len() && forall|i: int|
                0 <= i < v@.len() ==> #[trigger] v@[i] == self.modules@[i].name,
    {
        let mut ret: Vec<String> = Vec::new();
        let n = self.modules.len();
        let mut i: usize = 0;
        while i < n
            invariant
                i <= n,
                n == self.modules@.len(),
                ret@.len() == i,
                forall|j: int| 0 <= j < i ==> #[trigger] ret@[j] == self.modules@[j].name,
            decreases n - i,
        {
            ret.push(self.modules[i].name.clone());
            i = i + 1;
        }
        Ok(ret)
    }

    /// The names of the spawned modules, in spawn order.
    pub fn get_spawned_list(&self) -> (r: ModResult<Vec<String>>)
        ensures
            r matches Ok(v) && v@.len() == self.spwned@.len() && forall|i: int|
                0 <= i < v@.len() ==> #[trigger] v@[i] == self.spwned@[i].name,
    {
        let mut ret: Vec<String> = Vec::new();
        let n = self.spwned.len();
        let mut i: usize = 0;
        while i < n
            invariant
                i <= n,
                n == self.spwned@.len(),
                ret@.len() == i,
                forall|j: int| 0 <= j < i ==> #[trigger] ret@[j] == self.spwned@[j].name,
            decreases n - i,
        {
            ret.push(self.spwned[i].name.clone());
            i = i + 1;
        }
        Ok(ret)
    }

    /// `Running` for a spawned module, `Loaded` for one only loaded,
    /// `Not found` otherwise.
    pub fn get_status(&self, mod_name: &str) -> (r: String)
        ensures
            r@ == spec_status(self.spwned@, self.modules@, mod_name@),
    {
        let n = self.spwned.len();
        let mut i: usize = 0;
        while i < n
            invariant
                i <= n,
                n == self.spwned@.len(),
                forall|j: int| 0 <= j < i ==> (#[trigger] self.spwned@[j]).name@ != mod_name@,
            decreases n - i,
        {
            if crate::text::str_eq(self.spwned[i].name.as_str(), mod_name) {
                proof {
                    assert(has_spawned(self.spwned@, mod_name@));
                }
                return "Running".to_owned();
            }
            i = i + 1;
        }
        let m = self.modules.len();
        let mut k: usize = 0;
        while k < m
            invariant
                k <= m,
                m == self.modules@.len(),
                !has_spawned(self.spwned@, mod_name@),
                forall|j: int| 0 <= j < k ==> (#[trigger] self.modules@[j]).name@ != mod_name@,
            decreases m - k,
        {
            if crate::text::str_eq(self.modules[k].name.as_str(), mod_name) {
                proof {
                    assert(has_module(self.modules@, mod_name@));
                }
                return "Loaded".to_owned();
            }
            k = k + 1;
        }
        "Not found".to_owned()
    }

    /// Empties the spawned list, newest descriptor first, and returns the
    /// names in that order. The caller joins each worker and calls the
    /// module's destroy hook.
    pub fn join_all(&mut self) -> (r: Vec<String>)
        ensures
            final(self).modules == old(self).modules,
            final(self).output == old(self).output,
            final(self).respawn_duration == old(self).respawn_duration,
            final(self).spwned@.len() == 0,
            r@.len() == old(self).spwned@.len(),
            forall|i: int|
                0 <= i < r@.len() ==> #[trigger] r@[i] == old(self).spwned@[r@.len() - 1 - i].name,
    {
        let mut res: Vec<String> = Vec::new();
        let ghost total = self.spwned@.len() as int;
        while self.spwned.len() > 0
            invariant
                self.modules == old(self).modules,
                self.output == old(self).output,
                self.respawn_duration == old(self).respawn_duration,
                total == old(self).spwned@.len(),
                self.spwned@.len() + res@.len() == total,
                self.spwned@ == old(self).spwned@.subrange(0, self.spwned@.len() as int),
                forall|i: int|
                    0 <= i < res@.len() ==> #[trigger] res@[i] == old(self).spwned@[total - 1
                        - i].name,
            decreases self.spwned@.len(),
        {
            let item = self.spwned.pop();
            if let Some(i) = item {
                res.push(i.name);
            }
            proof {
                assert(self.spwned@ =~= old(self).spwned@.subrange(
                    0,
                    self.spwned@.len() as int,
                ));
            }
        }
        res
    }
}


/// When the first `dex` names differ and the name stands at `dex`, the
/// first loaded module of that name is at `dex`.
pub proof fn lemma_find_module_at(ms: Seq<ModuleManagerContainer>, n: Seq<char>, dex: int)
    requires
        0 <= dex < ms.len(),
        ms[dex].name@ == n,
        forall|j: int| 0 <= j < dex ==> (#[trigger] ms[j]).name@ != n,
    ensures
        find_module(ms, n) == Some(dex),
    decreases dex,
{
    if dex == 0 {
    } else {
        assert(forall|j: int|
            0 <= j < dex - 1 ==> (#[trigger] ms.drop_first()[j]).name@ == ms[j + 1].name@);
        lemma_find_module_at(ms.drop_first(), n, dex - 1);
    }
}

/// When the first `dex` names differ and the name stands at `dex`, the
/// first spawned descriptor of that name is at `dex`.
pub proof fn lemma_find_spawned_at(ss: Seq<ModSpwned>, n: Seq<char>, dex: int)
    requires
        0 <= dex < ss.len(),
        ss[dex].name@ == n,
        forall|j: int| 0 <= j < dex ==> (#[trigger] ss[j]).name@ != n,
    ensures
        find_spawned(ss, n) == Some(dex),
    decreases dex,
{
    if dex == 0 {
    } else {
        assert(forall|j: int|
            0 <= j < dex - 1 ==> (#[trigger] ss.drop_first()[j]).name@ == ss[j + 1].name@);
        lemma_find_spawned_at(ss.drop_first(), n, dex - 1);
    }
}

/// A descriptor stamped alive at `now` when it bears the name.
pub open spec fn spec_stamped(m: ModSpwned, n: Seq<char>, now: u64) -> ModSpwned {
    if m.name@ == n {
        ModSpwned { last_time_seen_alive: now, ..m }
    } else {
        m
    }
}

/// Whether a descriptor has been silent longer than the threshold.
pub open spec fn is_overdue(m: ModSpwned, now: u64, dur: u64) -> bool {
    now > m.last_time_seen_alive + dur
}

/// The first overdue descriptor.
pub open spec fn find_overdue(ss: Seq<ModSpwned>, now: u64, dur: u64) -> Option<int>
    decreases ss.len(),
{
    if ss.len() == 0 {
        None
    } else if is_overdue(ss[0], now, dur) {
        Some(0)
    } else {
        match find_overdue(ss.drop_first(), now, dur) {
            Some(i) => Some(i + 1),
            None => None,
        }
    }
}

/// The notification the manager queues when it respawns a module.
pub open spec fn is_respawn_notice(p: Packet, exit: WorkerExit, n: Seq<char>) -> bool {
    match exit {
        WorkerExit::Clean => p matches Packet::NotifyWarn(c) && c@ == notif_core(
            "Module "@ + n + " stopped"@,
            "Module Manager"@,
            "Respawn"@,
        ),
        WorkerExit::Failed(e) => p matches Packet::NotifyErr(c) && c@ == notif_core(
            "Module "@ + n + " exited with error "@ + e@,
            "Module Manager"@,
            "Respawn"@,
        ),
        WorkerExit::Panicked => p matches Packet::NotifyErr(c) && c@ == notif_core(
            "Module "@ + n + " panicked"@,
            "Module Manager"@,
            "Respawn"@,
        ),
    }
}

/// A fire request packet addressed to the named module, as the scheduler
/// and the control channel build it.
pub open spec fn is_fire_request(p: Packet, n: Seq<char>) -> bool {
    p matches Packet::BackupCom(c) && c@ == crate::packet::spec_backup_encode(
        crate::packet::BackupModel::Fire(Some(n)),
    )
}

/// The first descriptor with an invalid schedule field at the sampled
/// time.
pub open spec fn find_invalid(ss: Seq<ModSpwned>, now: LocalTime) -> Option<int>
    decreases ss.len(),
{
    if ss.len() == 0 {
        None
    } else if spec_should_fire(ss[0], now) is None {
        Some(0)
    } else {
        match find_invalid(ss.drop_first(), now) {
            Some(i) => Some(i + 1),
            None => None,
        }
    }
}

impl ModuleManager {
    /// Spawns the first loaded module of the given name: appends a fresh
    /// descriptor. The caller starts the worker. `NotFound` when no loaded
    /// module bears the name.
    pub fn spawn(&mut self, mod_name: &str, now: u64) -> (r: ModSpawnState)
        ensures
            final(self).modules == old(self).modules,
            final(self).output == old(self).output,
            final(self).respawn_duration == old(self).respawn_duration,
            match find_module(old(self).modules@, mod_name@) {
                Some(dex) => {
                    &&& r is Spawned
                    &&& final(self).spwned@.len() == old(self).spwned@.len() + 1
                    &&& final(self).spwned@.drop_last() == old(self).spwned@
                    &&& final(self).spwned@.last().modules_index == dex
                    &&& final(self).spwned@.last().name@ == mod_name@
                    &&& final(self).spwned@.last().last_time_seen_alive == now
                    &&& final(self).spwned@.last().last_cycle is None
                    &&& final(self).spwned@.last().whence == old(self).modules@[dex].whence
                },
                None => r is NotFound && final(self).spwned == old(self).spwned,
            },
    {
        let n = self.modules.len();
        let mut dex: usize = 0;
        while dex < n
            invariant
                dex <= n,
                n == self.modules@.len(),
                self.modules == old(self).modules,
                self.output == old(self).output,
                self.respawn_duration == old(self).respawn_duration,
                self.spwned == old(self).spwned,
                forall|j: int| 0 <= j < dex ==> (#[trigger] self.modules@[j]).name@ != mod_name@,
            decreases n - dex,
        {
            if crate::text::str_eq(self.modules[dex].name.as_str(), mod_name) {
                proof {
                    lemma_find_module_at(self.modules@, mod_name@, dex as int);
                }
                let spwn = ModSpwned {
                    modules_index: dex,
                    name: self.modules[dex].name.clone(),
                    last_time_seen_alive: now,
                    last_cycle: None,
                    whence: clone_whence(&self.modules[dex].whence),
                };
                self.spwned.push(spwn);
                proof {
                    assert(final(self).spwned@.drop_last() =~= old(self).spwned@);
                }
                return ModSpawnState::Spawned;
            }
            dex = dex + 1;
        }
        proof {
            lemma_find_module(self.modules@, mod_name@);
        }
        ModSpawnState::NotFound
    }

    /// Stamps every spawned descriptor of the given name as alive at `now`.
    pub fn record_alive(&mut self, name: &str, now: u64)
        ensures
            final(self).modules == old(self).modules,
            final(self).output == old(self).output,
            final(self).respawn_duration == old(self).respawn_duration,
            final(self).spwned@.len() == old(self).spwned@.len(),
            forall|i: int|
                0 <= i < old(self).spwned@.len() ==> final(self).spwned@[i] == spec_stamped(
                    #[trigger] old(self).spwned@[i],
                    name@,
                    now,
                ),
    {
        let mut work: Vec<ModSpwned> = Vec::new();
        core::mem::swap(&mut work, &mut self.spwned);
        let ghost orig = work@;
        let n = work.len();
        let mut i: usize = 0;
        while i < n
            invariant
                i <= n,
                n == orig.len(),
                orig == old(self).spwned@,
                self.modules == old(self).modules,
                self.output == old(self).output,
                self.respawn_duration == old(self).respawn_duration,
                work@ == orig.subrange(i as int, n as int),
                self.spwned@.len() == i,
                forall|j: int|
                    0 <= j < i ==> self.spwned@[j] == spec_stamped(
                        #[trigger] orig[j],
                        name@,
                        now,
                    ),
            decreases n - i,
        {
            let mut m = work.remove(0);
            if crate::text::str_eq(m.name.as_str(), name) {
                m.last_time_seen_alive = now;
            }
            self.spwned.push(m);
            proof {
                assert(work@ =~= orig.subrange(i + 1, n as int));
            }
            i = i + 1;
        }
    }

    /// The name of the first spawned module whose silence exceeds the
    /// threshold; the caller joins it and asks for a respawn.
    pub fn respawn_due(&self, now: u64) -> (r: Option<String>)
        ensures
            match find_overdue(self.spwned@, now, self.respawn_duration) {
                Some(i) => r matches Some(s) && s == self.spwned@[i].name,
                None => r is None,
            },
    {
        let n = self.spwned.len();
        let mut i: usize = 0;
        while i < n
            invariant
                i <= n,
                n == self.spwned@.len(),
                forall|j: int|
                    0 <= j < i ==> !is_overdue(
                        #[trigger] self.spwned@[j],
                        now,
                        self.respawn_duration,
                    ),
            decreases n - i,
        {
            let m = &self.spwned[i];
            if now > m.last_time_seen_alive && now - m.last_time_seen_alive
                > self.respawn_duration {
                proof {
                    lemma_find_overdue_at(self.spwned@, now, self.respawn_duration, i as int);
                }
                return Some(m.name.clone());
            }
            i = i + 1;
        }
        proof {
            lemma_find_overdue_none(self.spwned@, now, self.respawn_duration);
        }
        None
    }

    /// Removes the first spawned descriptor of the given name, queues a
    /// notification that tells how its worker had exited, and spawns the
    /// module anew. `None` when no spawned descriptor bears the name. A
    /// module that was spawned and is still loaded is spawned again: its
    /// name never leaves the spawned list.
    pub fn respawn(&mut self, mod_name: &str, exit: WorkerExit, now: u64) -> (r: Option<
        ModSpawnState,
    >)
        ensures
            final(self).modules == old(self).modules,
            final(self).respawn_duration == old(self).respawn_duration,
            match find_spawned(old(self).spwned@, mod_name@) {
                None => {
                    &&& r is None
                    &&& final(self).spwned == old(self).spwned
                    &&& final(self).output == old(self).output
                },
                Some(dex) => {
                    &&& final(self).output@.len() == old(self).output@.len() + 1
                    &&& final(self).output@.drop_last() == old(self).output@
                    &&& is_respawn_notice(final(self).output@.last(), exit, mod_name@)
                    &&& match find_module(old(self).modules@, mod_name@) {
                        Some(mdex) => {
                            &&& r matches Some(s) && s is Spawned
                            &&& final(self).spwned@.len() == old(self).spwned@.len()
                            &&& final(self).spwned@.drop_last() == old(self).spwned@.remove(dex)
                            &&& final(self).spwned@.last().name@ == mod_name@
                            &&& final(self).spwned@.last().modules_index == mdex
                            &&& final(self).spwned@.last().last_time_seen_alive == now
                        },
                        None => {
                            &&& r matches Some(s) && s is NotFound
                            &&& final(self).spwned@ == old(self).spwned@.remove(dex)
                        },
                    }
                },
            },
            has_spawned(old(self).spwned@, mod_name@) && has_module(old(self).modules@, mod_name@)
                ==> has_spawned(final(self).spwned@, mod_name@),
    {
        let n = self.spwned.len();
        let mut dex: usize = 0;
        let mut found = false;
        while !found && dex < n
            invariant
                dex <= n,
                n == self.spwned@.len(),
                self.modules == old(self).modules,
                self.output == old(self).output,
                self.respawn_duration == old(self).respawn_duration,
                self.spwned == old(self).spwned,
                forall|j: int| 0 <= j < dex ==> (#[trigger] self.spwned@[j]).name@ != mod_name@,
                found ==> dex < n && self.spwned@[dex as int].name@ == mod_name@,
            decreases n - dex + (if found { 0int } else { 1int }),
        {
            if crate::text::str_eq(self.spwned[dex].name.as_str(), mod_name) {
                found = true;
            } else {
                dex = dex + 1;
            }
        }
        if !found {
            proof {
                lemma_find_spawned(self.spwned@, mod_name@);
            }
            return None;
        }
        proof {
            lemma_find_spawned_at(self.spwned@, mod_name@, dex as int);
        }
        let torespawn = self.spwned.remove(dex);
        let notice = match exit {
            WorkerExit::Clean => {
                let mut msg = "Module ".to_owned();
                msg.append(mod_name);
                msg.append(" stopped");
                Packet::new_nw(msg.as_str(), "Module Manager", "Respawn")
            },
            WorkerExit::Failed(e) => {
                let mut msg = "Module ".to_owned();
                msg.append(mod_name);
                msg.append(" exited with error ");
                msg.append(e.as_str());
                Packet::new_ne(msg.as_str(), "Module Manager", "Respawn")
            },
            WorkerExit::Panicked => {
                let mut msg = "Module ".to_owned();
                msg.append(mod_name);
                msg.append(" panicked");
                Packet::new_ne(msg.as_str(), "Module Manager", "Respawn")
            },
        };
        self.output.push(notice);
        proof {
            assert(self.output@.drop_last() =~= old(self).output@);
        }
        let state = self.spawn(mod_name, now);
        proof {
            lemma_find_module(self.modules@, mod_name@);
            if has_spawned(old(self).spwned@, mod_name@) && has_module(
                self.modules@,
                mod_name@,
            ) {
                assert(final(self).spwned@.last().name@ == mod_name@);
            }
        }
        Some(state)
    }

    /// Pops the packet at the head of the manager's outbound queue.
    pub fn take_output(&mut self) -> (r: Option<Packet>)
        ensures
            final(self).modules == old(self).modules,
            final(self).spwned == old(self).spwned,
            final(self).respawn_duration == old(self).respawn_duration,
            old(self).output@.len() == 0 ==> r is None && final(self).output == old(self).output,
            old(self).output@.len() > 0 ==> r == Some(old(self).output@[0])
                && final(self).output@ == old(self).output@.drop_first(),
    {
        if self.output.len() == 0 {
            None
        } else {
            Some(self.output.remove(0))
        }
    }
}

/// When the first `dex` descriptors are not overdue and the one at `dex`
/// is, the first overdue descriptor is at `dex`.
proof fn lemma_find_overdue_at(ss: Seq<ModSpwned>, now: u64, dur: u64, dex: int)
    requires
        0 <= dex < ss.len(),
        is_overdue(ss[dex], now, dur),
        forall|j: int| 0 <= j < dex ==> !is_overdue(#[trigger] ss[j], now, dur),
    ensures
        find_overdue(ss, now, dur) == Some(dex),
    decreases dex,
{
    if dex == 0 {
    } else {
        assert(forall|j: int|
            0 <= j < dex - 1 ==> ss.drop_first()[j] == ss[j + 1]);
        lemma_find_overdue_at(ss.drop_first(), now, dur, dex - 1);
    }
}

/// When no descriptor is overdue, none is found.
proof fn lemma_find_overdue_none(ss: Seq<ModSpwned>, now: u64, dur: u64)
    requires
        forall|j: int| 0 <= j < ss.len() ==> !is_overdue(#[trigger] ss[j], now, dur),
    ensures
        find_overdue(ss, now, dur) is None,
    decreases ss.len(),
{
    if ss.len() > 0 {
        assert(forall|j: int|
            0 <= j < ss.len() - 1 ==> ss.drop_first()[j] == ss[j + 1]);
        lemma_find_overdue_none(ss.drop_first(), now, dur);
    }
}


impl ModuleManager {
    /// One scheduling pass at the sampled local time: every spawned module
    /// whose schedule matches the hour and the minute, and which has not
    /// fired in this minute yet, gets one fire request queued on the
    /// manager's output, and remembers the minute. An invalid schedule
    /// field stops the pass at its descriptor and is an error.
    pub fn fire_cyclic(&mut self, now: &LocalTime) -> (r: ModResult<()>)
        ensures
            final(self).modules == old(self).modules,
            final(self).respawn_duration == old(self).respawn_duration,
            final(self).spwned@.len() == old(self).spwned@.len(),
            match find_invalid(old(self).spwned@, *now) {
                None => {
                    &&& r is Ok
                    &&& forall|i: int|
                        0 <= i < old(self).spwned@.len() ==> final(self).spwned@[i] == spec_fired(
                            #[trigger] old(self).spwned@[i],
                            *now,
                        )
                    &&& fire_outputs(
                        old(self).output@,
                        final(self).output@,
                        fired_names(old(self).spwned@, *now),
                    )
                },
                Some(b) => {
                    &&& r matches Err(e) && e@ == "invalid schedule field"@
                    &&& forall|i: int|
                        0 <= i < b ==> final(self).spwned@[i] == spec_fired(
                            #[trigger] old(self).spwned@[i],
                            *now,
                        )
                    &&& forall|i: int|
                        b <= i < old(self).spwned@.len() ==> final(self).spwned@[i] == old(
                            self,
                        ).spwned@[i]
                    &&& fire_outputs(
                        old(self).output@,
                        final(self).output@,
                        fired_names(old(self).spwned@.subrange(0, b), *now),
                    )
                },
            },
    {
        let mut work: Vec<ModSpwned> = Vec::new();
        core::mem::swap(&mut work, &mut self.spwned);
        let ghost orig = work@;
        let n = work.len();
        let mut i: usize = 0;
        proof {
            assert(orig.subrange(0, 0) =~= Seq::<ModSpwned>::empty());
            assert(fired_names(Seq::<ModSpwned>::empty(), *now) =~= Seq::<Seq<char>>::empty());
            assert(self.output@.subrange(0, self.output@.len() as int) =~= self.output@);
        }
        while i < n
            invariant
                i <= n,
                n == orig.len(),
                orig == old(self).spwned@,
                self.modules == old(self).modules,
                self.respawn_duration == old(self).respawn_duration,
                work@ == orig.subrange(i as int, n as int),
                self.spwned@.len() == i,
                find_invalid(orig.subrange(0, i as int), *now) is None,
                forall|j: int|
                    0 <= j < i ==> self.spwned@[j] == spec_fired(#[trigger] orig[j], *now),
                fire_outputs(
                    old(self).output@,
                    self.output@,
                    fired_names(orig.subrange(0, i as int), *now),
                ),
            decreases n - i,
        {
            let mut m = work.remove(0);
            let ghost pre = m;
            let fire = match &m.whence {
                Some(w) => {
                    match w.matches_at(now.hour, now.min) {
                        Ok(b) => {
                            let already = match m.last_cycle {
                                Some(x) => x == now.minute_stamp,
                                None => false,
                            };
                            b && !already
                        },
                        Err(e) => {
                            proof {
                                lemma_find_invalid_at(orig, *now, i as int);
                            }
                            self.spwned.push(m);
                            proof {
                                assert(work@ =~= orig.subrange(i + 1, n as int));
                            }
                            let mut k = i + 1;
                            while work.len() > 0
                                invariant
                                    i < k <= n,
                                    n == orig.len(),
                                    orig == old(self).spwned@,
                                    self.modules == old(self).modules,
                                    self.respawn_duration == old(self).respawn_duration,
                                    work@ == orig.subrange(k as int, n as int),
                                    self.spwned@.len() == k,
                                    forall|j: int|
                                        0 <= j < i ==> self.spwned@[j] == spec_fired(
                                            #[trigger] orig[j],
                                            *now,
                                        ),
                                    forall|j: int|
                                        i <= j < k ==> self.spwned@[j] == orig[j],
                                    fire_outputs(
                                        old(self).output@,
                                        self.output@,
                                        fired_names(orig.subrange(0, i as int), *now),
                                    ),
                                decreases work@.len(),
                            {
                                let m2 = work.remove(0);
                                self.spwned.push(m2);
                                proof {
                                    assert(work@ =~= orig.subrange(k + 1, n as int));
                                }
                                k = k + 1;
                            }
                            return Err(e);
                        },
                    }
                },
                None => false,
            };
            if fire {
                let namec = m.name.clone();
                let p = Packet::BackupCom(
                    crate::packet::BackupCommand::Fire(Some(namec)).to_core(),
                );
                let ghost prev_out = self.output@;
                let ghost prefix = orig.subrange(0, i as int);
                self.output.push(p);
                proof {
                    let before = old(self).output@;
                    let names2 = fired_names(prefix, *now).push(pre.name@);
                    assert(self.output@.subrange(0, before.len() as int) =~= prev_out.subrange(
                        0,
                        before.len() as int,
                    ));
                    assert(is_fire_request(p, pre.name@));
                    assert(self.output@.last() == p);
                    assert(fire_outputs(before, self.output@, names2)) by {
                        assert(forall|k: int|
                            0 <= k < names2.len() - 1 ==> #[trigger] self.output@[before.len()
                                + k] == prev_out[before.len() + k]);
                        assert(self.output@[before.len() + names2.len() - 1] == p);
                        assert(names2[names2.len() - 1] == pre.name@);
                    }
                }
                m.last_cycle = Some(now.minute_stamp);
            }
            self.spwned.push(m);
            proof {
                assert(work@ =~= orig.subrange(i + 1, n as int));
                let prefix = orig.subrange(0, i as int);
                let prefix2 = orig.subrange(0, i + 1);
                assert(prefix2.drop_last() =~= prefix);
                assert(prefix2.last() == orig[i as int]);
                assert(spec_should_fire(orig[i as int], *now) == if fire {
                    Some(true)
                } else {
                    Some(false)
                });
                if fire {
                    assert(fired_names(prefix2, *now) =~= fired_names(prefix, *now).push(
                        orig[i as int].name@,
                    ));
                }
                lemma_find_invalid_extend(orig, *now, i as int);
            }
            i = i + 1;
        }
        proof {
            assert(orig.subrange(0, n as int) =~= orig);
            lemma_find_invalid_none(orig, *now);
        }
        Ok(())
    }
}

/// How the output queue grows in one scheduling pass: one fire request per
/// fired name, in firing order, behind what was queued before.
pub open spec fn fire_outputs(
    before: Seq<Packet>,
    after: Seq<Packet>,
    names: Seq<Seq<char>>,
) -> bool {
    &&& after.len() == before.len() + names.len()
    &&& after.subrange(0, before.len() as int) == before
    &&& forall|k: int|
        0 <= k < names.len() ==> is_fire_request(
            #[trigger] after[before.len() + k],
            names[k],
        )
}

/// When every descriptor before `dex` has a valid schedule and the one at
/// `dex` has not, the first invalid descriptor is at `dex`.
proof fn lemma_find_invalid_at(ss: Seq<ModSpwned>, now: LocalTime, dex: int)
    requires
        0 <= dex < ss.len(),
        spec_should_fire(ss[dex], now) is None,
        find_invalid(ss.subrange(0, dex), now) is None,
    ensures
        find_invalid(ss, now) == Some(dex),
    decreases dex,
{
    if dex == 0 {
    } else {
        assert(ss.subrange(0, dex)[0] == ss[0]);
        assert(!(spec_should_fire(ss[0], now) is None));
        assert(ss.drop_first().subrange(0, dex - 1) =~= ss.subrange(0, dex).drop_first());
        lemma_find_invalid_at(ss.drop_first(), now, dex - 1);
    }
}

/// A valid prefix stays valid when the next descriptor is valid too.
proof fn lemma_find_invalid_extend(ss: Seq<ModSpwned>, now: LocalTime, i: int)
    requires
        0 <= i < ss.len(),
        find_invalid(ss.subrange(0, i), now) is None,
        !(spec_should_fire(ss[i], now) is None),
    ensures
        find_invalid(ss.subrange(0, i + 1), now) is None,
    decreases i,
{
    if i == 0 {
        assert(ss.subrange(0, 1)[0] == ss[0]);
        assert(ss.subrange(0, 1).drop_first() =~= Seq::<ModSpwned>::empty());
    } else {
        assert(ss.subrange(0, i)[0] == ss[0]);
        assert(ss.subrange(0, i + 1)[0] == ss[0]);
        if spec_should_fire(ss[0], now) is None {
        } else {
            assert(ss.drop_first().subrange(0, i - 1) =~= ss.subrange(0, i).drop_first());
            assert(ss.drop_first().subrange(0, i) =~= ss.subrange(0, i + 1).drop_first());
            assert(ss.drop_first()[i - 1] == ss[i]);
            lemma_find_invalid_extend(ss.drop_first(), now, i - 1);
        }
    }
}

/// A sequence whose every prefix is valid has no invalid descriptor.
proof fn lemma_find_invalid_none(ss: Seq<ModSpwned>, now: LocalTime)
    requires
        find_invalid(ss.subrange(0, ss.len() as int), now) is None,
    ensures
        find_invalid(ss, now) is None,
{
    assert(ss.subrange(0, ss.len() as int) =~= ss);
}

/// Registers the manager and its modules on the bus: first the manager's
/// own connection, which listens for alive packets, then one connection
/// per loaded module, in load order, each serving a fresh endpoint with
/// that module's filter.
pub fn connect(manager: &ModuleManager, bus: &mut Bus) -> (r: ModResult<()>)
    ensures
        r is Ok,
        final(bus).cable_view() == old(bus).cable_view(),
        final(bus).conns_view().len() == old(bus).conns_view().len() + 1
            + manager.modules@.len(),
        forall|i: int|
            0 <= i < old(bus).conns_view().len() ==> final(bus).conns_view()[i] == old(
                bus,
            ).conns_view()[i],
        ({
            let sup = final(bus).conns_view()[old(bus).conns_view().len() as int].cell@;
            &&& sup.name == "Module Manager"@
            &&& sup.accepts =~= seq![PacketTag::Alive]
            &&& sup.run_status == crate::module::RUN_IDLE
            &&& sup.emit_alive == false
            &&& sup.stack.len() == 0
            &&& sup.inbox.len() == 0
        }),
        forall|k: int|
            0 <= k < manager.modules@.len() ==> {
                let c = (#[trigger] final(bus).conns_view()[old(bus).conns_view().len() + 1
                    + k]).cell@;
                &&& c.name == manager.modules@[k].name@
                &&& c.accepts == manager.modules@[k].accepts@
                &&& c.run_status == crate::module::RUN_IDLE
                &&& c.emit_alive == false
                &&& c.stack.len() == 0
                &&& c.inbox.len() == 0
            },
{
    let mut sup_accepts: Vec<PacketTag> = Vec::new();
    sup_accepts.push(PacketTag::Alive);
    let sup_cell = ModuleCell::new("Module Manager".to_owned(), None, sup_accepts);
    bus.connect(BusConnection::new(sup_cell));
    let n = manager.modules.len();
    let mut k: usize = 0;
    while k < n
        invariant
            k <= n,
            n == manager.modules@.len(),
            bus.cable_view() == old(bus).cable_view(),
            bus.conns_view().len() == old(bus).conns_view().len() + 1 + k,
            forall|i: int|
                0 <= i < old(bus).conns_view().len() ==> bus.conns_view()[i] == old(
                    bus,
                ).conns_view()[i],
            ({
                let sup = bus.conns_view()[old(bus).conns_view().len() as int].cell@;
                &&& sup.name == "Module Manager"@
                &&& sup.accepts =~= seq![PacketTag::Alive]
                &&& sup.run_status == crate::module::RUN_IDLE
                &&& sup.emit_alive == false
                &&& sup.stack.len() == 0
                &&& sup.inbox.len() == 0
            }),
            forall|j: int|
                0 <= j < k ==> {
                    let c = (#[trigger] bus.conns_view()[old(bus).conns_view().len() + 1
                        + j]).cell@;
                    &&& c.name == manager.modules@[j].name@
                    &&& c.accepts == manager.modules@[j].accepts@
                    &&& c.run_status == crate::module::RUN_IDLE
                    &&& c.emit_alive == false
                    &&& c.stack.len() == 0
                    &&& c.inbox.len() == 0
                },
        decreases n - k,
    {
        let name = manager.modules[k].name.clone();
        let config = clone_opt_string(&manager.modules[k].config);
        let mut accepts: Vec<PacketTag> = Vec::new();
        let na = manager.modules[k].accepts.len();
        let mut t: usize = 0;
        while t < na
            invariant
                t <= na,
                na == manager.modules@[k as int].accepts@.len(),
                k < n == manager.modules@.len(),
                accepts@ == manager.modules@[k as int].accepts@.subrange(0, t as int),
            decreases na - t,
        {
            accepts.push(manager.modules[k].accepts[t]);
            proof {
                assert(accepts@ =~= manager.modules@[k as int].accepts@.subrange(
                    0,
                    t + 1,
                ));
            }
            t = t + 1;
        }
        proof {
            assert(accepts@ =~= manager.modules@[k as int].accepts@);
        }
        let cell = ModuleCell::new(name, config, accepts);
        bus.connect(BusConnection::new(cell));
        k = k + 1;
    }
    Ok(())
}


/// Law (one fire per minute): a module the scheduler has just fired does
/// not fire again while the sampled minute is the same, however often the
/// scheduling pass runs.
pub proof fn lemma_fire_once_per_minute(m: ModSpwned, now: LocalTime)
    requires
        spec_should_fire(m, now) == Some(true),
    ensures
        spec_should_fire(spec_fired(m, now), now) == Some(false),
        spec_fired(spec_fired(m, now), now) == spec_fired(m, now),
{
}


/// Law (fire reaches its module): a fire request addressed to a module
/// whose name is clean and fits the name field sets that module's
/// run-status to `RUN_FIRE` when the default input routing handles it.
pub proof fn lemma_fire_request_fires(p: Packet, c: crate::module::CellModel)
    requires
        is_fire_request(p, c.name),
        crate::packet::clean(c.name),
        0 < c.name.len() <= 100,
    ensures
        crate::module::cell_input(c, p).run_status == crate::module::RUN_FIRE,
{
    crate::packet::lemma_backup_round_trip(crate::packet::BackupModel::Fire(Some(c.name)));
}

} // verus!
