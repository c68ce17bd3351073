use bach::bus::Bus;
use bach::daemon::process_frame;
use bach::daemon::absorb_alive;
use bach::daemon::feed_supervisor;
use bach::daemon::ControlOutcome;
use bach::module::worker_step;
use bach::module::emitter_step;
use bach::module::ModuleCell;
use bach::module::ModError;
use bach::module::WorkerAction;
use bach::module::RUN_EARLY_TERM;
use bach::module::RUN_FIRE;
use bach::module::RUN_IDLE;
use bach::module::RUN_TERM;
use bach::modulemanager::connect;
use bach::modulemanager::ModSpawnState;
use bach::modulemanager::ModuleManager;
use bach::modulemanager::WorkerExit;
use bach::modulemanagerconfig::parse_u64;
use bach::modulemanagerconfig::LocalTime;
use bach::modulemanagerconfig::ModuleDefinition;
use bach::modulemanagerconfig::ModuleManagerConfig;
use bach::modulemanagerconfig::Whence;
use bach::packet::Notification;
use bach::packet::Packet;
use bach::packet::BackupCommand;
use bach::packet::PacketTag;
use bach::packet::CORE_SIZE;
use bach::tcpmessages::TcpCommand;
use bach::tcpmessages::TcpCommandList;

fn star_whence() -> Whence {
    Whence { hour: "*".to_string(), min: "*".to_string() }
}

fn one_module_manager() -> ModuleManager {
    let conf = ModuleManagerConfig {
        respawn_duration: 10,
        modules: vec![ModuleDefinition {
            cyclic: true,
            whence: Some(star_whence()),
            name: "stdlogger".to_string(),
            config: None,
        }],
    };
    ModuleManager::from_config(conf).unwrap()
}

#[test]
fn parse_u64_accepts_digits_only() {
    assert_eq!(parse_u64("0"), Some(0));
    assert_eq!(parse_u64("23"), Some(23));
    assert_eq!(parse_u64("18446744073709551615"), Some(u64::MAX));
    assert_eq!(parse_u64("18446744073709551616"), None);
    assert_eq!(parse_u64(""), None);
    assert_eq!(parse_u64("1a"), None);
    assert_eq!(parse_u64("*"), None);
}

#[test]
fn whence_matches_hour_and_minute() {
    let w = Whence { hour: "12".to_string(), min: "30".to_string() };
    assert_eq!(w.matches_at(12, 30).unwrap(), true);
    assert_eq!(w.matches_at(12, 31).unwrap(), false);
    assert_eq!(w.matches_at(13, 30).unwrap(), false);
    let star = star_whence();
    assert_eq!(star.matches_at(0, 0).unwrap(), true);
    assert_eq!(star.matches_at(23, 59).unwrap(), true);
    let bad = Whence { hour: "12x".to_string(), min: "0".to_string() };
    assert!(bad.matches_at(12, 0).is_err());
}

#[test]
fn fire_cyclic_fires_once_per_minute() {
    let mut mgr = one_module_manager();
    mgr.spawn_all(0).unwrap();
    let now = LocalTime { minute_stamp: 7, hour: 3, min: 15 };
    mgr.fire_cyclic(&now).unwrap();
    mgr.fire_cyclic(&now).unwrap();
    mgr.fire_cyclic(&now).unwrap();
    let first = mgr.take_output();
    assert!(first.is_some());
    match first.unwrap() {
        Packet::BackupCom(core) => {
            let cmd = BackupCommand::from_core(&core);
            assert_eq!(cmd, BackupCommand::Fire(Some("stdlogger".to_string())));
        }
        _ => assert!(false),
    }
    assert!(mgr.take_output().is_none());
    let later = LocalTime { minute_stamp: 8, hour: 3, min: 16 };
    mgr.fire_cyclic(&later).unwrap();
    assert!(mgr.take_output().is_some());
}

#[test]
fn fire_cyclic_rejects_invalid_schedule() {
    let conf = ModuleManagerConfig {
        respawn_duration: 10,
        modules: vec![ModuleDefinition {
            cyclic: true,
            whence: Some(Whence { hour: "oops".to_string(), min: "*".to_string() }),
            name: "dummy".to_string(),
            config: None,
        }],
    };
    let mut mgr = ModuleManager::from_config(conf).unwrap();
    mgr.spawn_all(0).unwrap();
    let now = LocalTime { minute_stamp: 1, hour: 0, min: 0 };
    assert!(mgr.fire_cyclic(&now).is_err());
}

#[test]
fn status_reports_running_loaded_missing() {
    let mut mgr = one_module_manager();
    assert_eq!(mgr.get_status("stdlogger"), "Loaded");
    assert_eq!(mgr.get_status("nobody"), "Not found");
    mgr.spawn_all(0).unwrap();
    assert_eq!(mgr.get_status("stdlogger"), "Running");
}

#[test]
fn respawn_keeps_name_spawned() {
    let mut mgr = one_module_manager();
    mgr.spawn_all(0).unwrap();
    let before = mgr.get_spawned_list().unwrap();
    let state = mgr.respawn("stdlogger", WorkerExit::Clean, 5);
    assert!(matches!(state, Some(ModSpawnState::Spawned)));
    let after = mgr.get_spawned_list().unwrap();
    assert_eq!(before, after);
    let notice = mgr.take_output().unwrap();
    let n = Notification::from_packet(notice);
    assert!(n.good);
    assert_eq!(n.message, "Module stdlogger stopped");
    assert_eq!(n.provider, "Module Manager");
    assert_eq!(n.stage, "Respawn");
}

#[test]
fn respawn_unknown_name_changes_nothing() {
    let mut mgr = one_module_manager();
    mgr.spawn_all(0).unwrap();
    assert!(mgr.respawn("ghost", WorkerExit::Panicked, 5).is_none());
    assert_eq!(mgr.get_spawned_list().unwrap(), vec!["stdlogger".to_string()]);
}

#[test]
fn spawn_unknown_name_is_not_found() {
    let mut mgr = one_module_manager();
    assert!(matches!(mgr.spawn("ghost", 0), ModSpawnState::NotFound));
    assert!(matches!(mgr.spawn("stdlogger", 0), ModSpawnState::Spawned));
}

#[test]
fn join_all_drains_newest_first() {
    let conf = ModuleManagerConfig {
        respawn_duration: 10,
        modules: vec![
            ModuleDefinition {
                cyclic: false,
                whence: None,
                name: "dummy".to_string(),
                config: None,
            },
            ModuleDefinition {
                cyclic: false,
                whence: None,
                name: "stdlogger".to_string(),
                config: None,
            },
        ],
    };
    let mut mgr = ModuleManager::from_config(conf).unwrap();
    mgr.spawn_all(0).unwrap();
    let names = mgr.join_all();
    assert_eq!(names, vec!["stdlogger".to_string(), "dummy".to_string()]);
    assert!(mgr.get_spawned_list().unwrap().is_empty());
}

#[test]
fn supervision_stamps_and_detects_silence() {
    let mut mgr = one_module_manager();
    mgr.spawn_all(100).unwrap();
    let mut bus = Bus::new();
    connect(&mgr, &mut bus).unwrap();
    assert_eq!(bus.con_count(), 2);
    assert!(mgr.respawn_due(105).is_none());
    assert_eq!(mgr.respawn_due(111).unwrap(), "stdlogger");
    bus.send(Packet::new_alive("stdlogger"));
    bus.perform();
    assert_eq!(bus.cell(0).inbox.len(), 1);
    absorb_alive(&mut mgr, &mut bus, 0, 120);
    assert_eq!(bus.cell(0).inbox.len(), 0);
    assert!(mgr.respawn_due(125).is_none());
}

#[test]
fn feed_supervisor_moves_one_packet() {
    let mut mgr = one_module_manager();
    mgr.spawn_all(0).unwrap();
    let mut bus = Bus::new();
    connect(&mgr, &mut bus).unwrap();
    let now = LocalTime { minute_stamp: 1, hour: 0, min: 0 };
    mgr.fire_cyclic(&now).unwrap();
    feed_supervisor(&mut mgr, &mut bus, 0);
    assert_eq!(bus.cell(0).message_stack.len(), 1);
    bus.perform();
    let fired = bus.pop().unwrap();
    match fired {
        Packet::BackupCom(core) => {
            assert_eq!(
                BackupCommand::from_core(&core),
                BackupCommand::Fire(Some("stdlogger".to_string()))
            );
        }
        _ => assert!(false),
    }
}

#[test]
fn fire_packet_sets_module_run_status() {
    let mut mgr = one_module_manager();
    mgr.spawn_all(0).unwrap();
    let mut bus = Bus::new();
    connect(&mgr, &mut bus).unwrap();
    bus.send(Packet::BackupCom(
        BackupCommand::Fire(Some("stdlogger".to_string())).to_core(),
    ));
    bus.perform();
    assert_eq!(bus.cell(1).run_status, RUN_FIRE);
}

#[test]
fn terminate_sets_every_run_status() {
    let mut mgr = one_module_manager();
    mgr.spawn_all(0).unwrap();
    let mut bus = Bus::new();
    connect(&mgr, &mut bus).unwrap();
    bus.send(Packet::new_term());
    bus.perform();
    assert_eq!(bus.cell(1).run_status, RUN_TERM);
    assert!(matches!(worker_step(bus.cell(1).run_status), WorkerAction::Exit));
}

#[test]
fn stop_packet_targets_one_module() {
    let mut mgr = one_module_manager();
    mgr.spawn_all(0).unwrap();
    let mut bus = Bus::new();
    connect(&mgr, &mut bus).unwrap();
    bus.send(Packet::new_stop("someone-else"));
    bus.perform();
    assert_eq!(bus.cell(1).run_status, RUN_IDLE);
    bus.send(Packet::new_stop("stdlogger"));
    bus.perform();
    assert_eq!(bus.cell(1).run_status, RUN_TERM);
}

#[test]
fn worker_step_table() {
    assert!(matches!(worker_step(RUN_IDLE), WorkerAction::Sleep));
    assert!(matches!(worker_step(RUN_FIRE), WorkerAction::RunFire));
    assert!(matches!(worker_step(RUN_TERM), WorkerAction::Exit));
    assert!(matches!(worker_step(RUN_EARLY_TERM), WorkerAction::Exit));
    assert!(emitter_step(RUN_IDLE));
    assert!(!emitter_step(RUN_TERM));
    assert!(!emitter_step(RUN_EARLY_TERM));
}

#[test]
fn conclude_fire_reports_both_ways() {
    let mut cell = ModuleCell::new("mod".to_string(), None, Vec::new());
    cell.conclude_fire(Ok(()));
    assert_eq!(cell.run_status, RUN_IDLE);
    let good = Notification::from_packet(cell.message_stack.pop().unwrap());
    assert_eq!(good.message, "Successful End");
    assert_eq!(good.provider, "mod");
    assert_eq!(good.stage, "END");
    cell.conclude_fire(Err(ModError::new("boom")));
    assert_eq!(cell.run_status, RUN_EARLY_TERM);
    let bad = Notification::from_packet(cell.message_stack.pop().unwrap());
    assert_eq!(bad.message, "boom");
    assert_eq!(bad.stage, "RUN");
}

fn frame(h: &[u8], arg: &[u8]) -> [u8; CORE_SIZE] {
    let mut core = [0u8; CORE_SIZE];
    for i in 0..4 {
        core[i] = h[i];
    }
    for i in 0..arg.len() {
        core[i + 4] = arg[i];
    }
    core
}

#[test]
fn control_frames_drive_the_daemon() {
    let mut mgr = one_module_manager();
    mgr.spawn_all(0).unwrap();
    let mut bus = Bus::new();
    connect(&mgr, &mut bus).unwrap();

    match process_frame(&mgr, &mut bus, &frame(b"LIST", b"running")) {
        ControlOutcome::Lines(v) => assert_eq!(v, vec!["stdlogger".to_string()]),
        _ => assert!(false),
    }
    match process_frame(&mgr, &mut bus, &frame(b"LIST", b"loaded")) {
        ControlOutcome::Lines(v) => assert_eq!(v, vec!["stdlogger".to_string()]),
        _ => assert!(false),
    }
    match process_frame(&mgr, &mut bus, &frame(b"STAT", b"stdlogger")) {
        ControlOutcome::StatusLine(s) => assert_eq!(s, "Running"),
        _ => assert!(false),
    }
    match process_frame(&mgr, &mut bus, &frame(b"FIRE", b"stdlogger")) {
        ControlOutcome::Sent => {}
        _ => assert!(false),
    }
    match process_frame(&mgr, &mut bus, &frame(b"TERM", b"")) {
        ControlOutcome::Terminated => {}
        _ => assert!(false),
    }
    match process_frame(&mgr, &mut bus, &frame(b"NOPE", b"x")) {
        ControlOutcome::Ignored => {}
        _ => assert!(false),
    }
    bus.perform();
    assert_eq!(bus.cell(1).run_status, RUN_FIRE);
    bus.perform();
    assert_eq!(bus.cell(1).run_status, RUN_TERM);
}

#[test]
fn module_registry_filters() {
    let logger = bach::modules::StdLogger::new(None);
    assert_eq!(
        logger.cell.accepts,
        vec![
            PacketTag::NotifyGood,
            PacketTag::NotifyWarn,
            PacketTag::NotifyErr,
            PacketTag::LoggerCom
        ]
    );
    let dummy = bach::modules::Dummy::new(None);
    assert!(dummy.cell.accepts.is_empty());
    assert_eq!(dummy.cell.name, "Dummy");
    let rsync = bach::modules::Rsync::new(Some("/etc/rsync.xml".to_string()));
    assert_eq!(rsync.cell.config_path, Some("/etc/rsync.xml".to_string()));
    let reporter = bach::modules::Reporter::new(None);
    assert_eq!(reporter.cell.name, "reporter");
}

#[test]
fn stdlogger_renders_lines() {
    let p = Packet::new_ng("done", "mod", "END");
    assert_eq!(
        bach::modules::StdLogger::render(&p).unwrap(),
        "mod:done at stage END"
    );
    let w = Packet::LoggerCom(bach::packet::LoggerCommand::Write("hello".to_string()).to_core());
    assert_eq!(bach::modules::StdLogger::render(&w).unwrap(), "hello");
    assert!(bach::modules::StdLogger::render(&Packet::new_term()).is_none());
}

#[test]
fn control_frames_round_trip() {
    let frames = vec![
        TcpCommand::List(TcpCommandList::Running),
        TcpCommand::List(TcpCommandList::Loaded),
        TcpCommand::Status("mod".to_string()),
        TcpCommand::Stop("mod".to_string()),
        TcpCommand::Terminate,
        TcpCommand::Fire("mod".to_string()),
    ];
    for f in frames {
        let core = f.to_core();
        let decoded = TcpCommand::from_core(&core);
        match (&f, &decoded) {
            (TcpCommand::List(TcpCommandList::Running), TcpCommand::List(TcpCommandList::Running)) => {}
            (TcpCommand::List(TcpCommandList::Loaded), TcpCommand::List(TcpCommandList::Loaded)) => {}
            (TcpCommand::Status(a), TcpCommand::Status(b)) => assert_eq!(a, b),
            (TcpCommand::Stop(a), TcpCommand::Stop(b)) => assert_eq!(a, b),
            (TcpCommand::Terminate, TcpCommand::Terminate) => {}
            (TcpCommand::Fire(a), TcpCommand::Fire(b)) => assert_eq!(a, b),
            _ => assert!(false),
        }
    }
}
