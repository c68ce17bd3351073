use bach::bus::Bus;
use bach::bus::BusConnection;
use bach::module::ModuleCell;
use bach::packet::BackupCommand;
use bach::packet::Packet;
use bach::packet::PacketTag;

fn sink(name: &str, accepts: Vec<PacketTag>) -> ModuleCell {
    ModuleCell::new(name.to_string(), None, accepts)
}

#[test]
fn bus_connection() {
    let mut bs = BusConnection::new(sink("probe", Vec::new()));
    assert!(bs.perform(Some(Packet::new_ng("FOO", "BAR", "BAZ"))).is_none());
}

#[test]
fn bus() {
    let mut b = Bus::new();
    let mut emitter = sink("s1", vec![PacketTag::NotifyGood]);
    let com = BackupCommand::ChangeHost(None, [192, 168, 1, 1]);
    emitter.outlet(Packet::BackupCom(com.to_core()));
    b.connect(BusConnection::new(emitter));
    b.connect(BusConnection::new(sink("s2", vec![PacketTag::NotifyErr])));
    b.connect(BusConnection::new(sink("s3", vec![PacketTag::Terminate])));
    b.send(Packet::new_ng("FOO", "FAA", "FEE"));
    b.send(Packet::new_ne("BAR", "BOR", "BER"));
    b.send(Packet::new_ne("BAZ", "BOZ", "BEZ"));

    for _ in 0..3 {
        b.perform();
    }

    let end = b.pop();
    b.pop();
    b.pop();
    let empty = b.pop();
    let com = BackupCommand::ChangeHost(None, [192, 168, 1, 1]);
    let endtest = Some(Packet::BackupCom(com.to_core()));

    assert_eq!(end, endtest);
    assert!(empty.is_none());
}

#[test]
fn bus_fanout_delivers_once_per_connection() {
    let mut b = Bus::new();
    b.connect(BusConnection::new(sink("a", vec![PacketTag::NotifyGood])));
    b.connect(BusConnection::new(sink("b", vec![PacketTag::NotifyGood])));
    b.connect(BusConnection::new(sink("c", vec![PacketTag::NotifyErr])));
    let p = Packet::new_ng("m", "p", "s");
    b.send(p);
    b.perform();
    assert_eq!(b.cell(0).inbox.len(), 1);
    assert_eq!(b.cell(1).inbox.len(), 1);
    assert_eq!(b.cell(0).inbox[0], p);
    assert_eq!(b.cell(1).inbox[0], p);
    assert_eq!(b.cell(2).inbox.len(), 0);
}

#[test]
fn bus_delivery_keeps_send_order() {
    let mut b = Bus::new();
    b.connect(BusConnection::new(sink("a", vec![PacketTag::NotifyGood, PacketTag::NotifyErr])));
    let first = Packet::new_ng("A", "p", "s");
    let second = Packet::new_ne("B", "p", "s");
    b.send(first);
    b.send(second);
    b.perform();
    b.perform();
    assert_eq!(b.cell(0).inbox.len(), 2);
    assert_eq!(b.cell(0).inbox[0], first);
    assert_eq!(b.cell(0).inbox[1], second);
}

#[test]
fn perform_on_empty_queue_delivers_nothing() {
    let mut b = Bus::new();
    b.connect(BusConnection::new(sink("a", vec![PacketTag::NotifyGood])));
    b.perform();
    assert_eq!(b.cell(0).inbox.len(), 0);
    assert!(b.pop().is_none());
    assert_eq!(b.con_count(), 1);
}

#[test]
fn alive_overtakes_message_stack() {
    let mut cell = ModuleCell::new("mod".to_string(), None, Vec::new());
    cell.outlet(Packet::new_ng("queued", "mod", "S"));
    cell.emit_alive = true;
    let mut conn = BusConnection::new(cell);
    let out = conn.perform(None);
    match out {
        Some(Packet::Alive(_)) => {
            let name = bach::packet::parse_alive(out.unwrap()).unwrap();
            assert_eq!(name, "mod");
        }
        _ => assert!(false),
    }
    let second = conn.perform(None);
    match second {
        Some(Packet::NotifyGood(_)) => {}
        _ => assert!(false),
    }
}
