use bach::packet::BackupCommand;
use bach::packet::HostCredentials;
use bach::packet::LoggerCommand;
use bach::packet::Notification;
use bach::packet::NotifyCommand;
use bach::packet::Packet;
use bach::packet::PacketCore;
use bach::packet::WatchCommand;
use bach::packet::core_2_string;
use bach::packet::parse_alive;
use bach::packet::CORE_SIZE;
use bach::packet::NAME_SIZE;

#[test]
fn packet_core_to_nofify_command() {
    let mut core1 = [0u8; CORE_SIZE];
    let mut core2 = [0u8; CORE_SIZE];
    let mut core3 = [0u8; CORE_SIZE];
    let mut core4 = [0u8; CORE_SIZE];
    let mut core5 = [0u8; CORE_SIZE];
    let head1 = b"SHUT";
    let head2 = b"ERRO";
    let head3 = b"WARN";
    let head4 = b"DEBU";
    let head5 = b"SHUU";
    let name = b"Dummy";
    let hlen = head1.len();
    for i in 0..hlen {
        core1[i] = head1[i];
        core2[i] = head2[i];
        core3[i] = head3[i];
        core4[i] = head4[i];
        core5[i] = head5[i];
    }
    for i in 0..name.len() {
        core1[i + 4] = name[i];
        core3[i + 4] = name[i];
        core5[i + 4] = name[i];
    }

    let nc1 = NotifyCommand::from_core(&core1);
    let nc2 = NotifyCommand::from_core(&core2);
    let nc3 = NotifyCommand::from_core(&core3);
    let nc4 = NotifyCommand::from_core(&core4);
    let nc5 = NotifyCommand::from_core(&core5);

    assert_eq!(nc1, NotifyCommand::ShutUp(Some("Dummy".to_string())));
    assert_eq!(nc2, NotifyCommand::Error(None));
    assert_eq!(nc3, NotifyCommand::Warning(Some("Dummy".to_string())));
    assert_eq!(nc4, NotifyCommand::Debug(None));
    assert_eq!(nc5, NotifyCommand::Undef);
}

#[test]
fn notify_command_to_packet_core() {
    let b1 = b"SHUT";
    let b2 = b"ERRO";
    let b3 = b"WARN";
    let b4 = b"DEBU";
    let t1 = NotifyCommand::ShutUp(Some("Dummy".to_string())).to_core();
    let t2 = NotifyCommand::Error(None).to_core();
    let t3 = NotifyCommand::Warning(Some("Dummy".to_string())).to_core();
    let t4 = NotifyCommand::Debug(None).to_core();
    let t5 = NotifyCommand::Undef.to_core();

    for i in 0..4 {
        assert_eq!(b1[i], t1[i]);
        assert_eq!(b2[i], t2[i]);
        assert_eq!(b3[i], t3[i]);
        assert_eq!(b4[i], t4[i]);
        assert_eq!(b3[i], t5[i]);
    }

    for i in 4..CORE_SIZE {
        assert_eq!(t2[i], 0u8);
        assert_eq!(t4[i], 0u8);
        assert_eq!(t5[i], 0u8);
    }

    let bytes = b"Dummy";

    for i in 0..bytes.len() {
        assert_eq!(t1[i + 4], bytes[i]);
        assert_eq!(t3[i + 4], bytes[i]);
    }
}

fn genbuf(h: &[u8], n: &[u8], r: &[u8]) -> PacketCore {
    let mut buf = [0u8; CORE_SIZE];
    for i in 0..4 {
        buf[i] = h[i];
    }
    for i in 0..n.len() {
        buf[i + 4] = n[i];
    }
    for i in 0..r.len() {
        buf[i + 4 + NAME_SIZE] = r[i];
    }
    buf
}

#[test]
fn packet_core_to_watch_command() {
    let w1 = WatchCommand::from_core(&genbuf(b"CHTA", b"Dummy", b"FOO"));
    let w2 = WatchCommand::from_core(&genbuf(b"TSTA", b"Dummy", b"BAR"));
    let w3 = WatchCommand::from_core(&genbuf(b"PRTA", b"Dummy", b""));
    let w4 = WatchCommand::from_core(&genbuf(b"TRRP", b"Dummy", b"BAZ"));
    let w5 = WatchCommand::from_core(&genbuf(b"BWAA", b"Dummy", b"HOHO"));

    assert_eq!(
        w1,
        WatchCommand::ChangeTarget(Some("Dummy".to_string()), "FOO".to_string())
    );
    assert_eq!(
        w2,
        WatchCommand::TestTarget(Some("Dummy".to_string()), "BAR".to_string())
    );
    assert_eq!(w3, WatchCommand::PrintTarget(Some("Dummy".to_string())));
    assert_eq!(
        w4,
        WatchCommand::TryRepair(Some("Dummy".to_string()), "BAZ".to_string())
    );
    assert_eq!(w5, WatchCommand::Undef);
}

#[test]
fn watch_command_to_packet_core() {
    let p1 = WatchCommand::ChangeTarget(Some("Dummy".to_string()), "FOO".to_string()).to_core();
    let p2 = WatchCommand::TestTarget(Some("Dummy".to_string()), "BAR".to_string()).to_core();
    let p3 = WatchCommand::PrintTarget(Some("Dummy".to_string())).to_core();
    let p4 = WatchCommand::TryRepair(Some("Dummy".to_string()), "BAZ".to_string()).to_core();
    let p5 = WatchCommand::Undef.to_core();
    let b1 = genbuf(b"CHTA", b"Dummy", b"FOO");
    let b2 = genbuf(b"TSTA", b"Dummy", b"BAR");
    let b3 = genbuf(b"PRTA", b"Dummy", b"");
    let b4 = genbuf(b"TRRP", b"Dummy", b"BAZ");
    let b5 = genbuf(b"PRTA", b"", b"");

    for i in 0..CORE_SIZE {
        assert_eq!(p1[i], b1[i]);
        assert_eq!(p2[i], b2[i]);
        assert_eq!(p3[i], b3[i]);
        assert_eq!(p4[i], b4[i]);
        assert_eq!(p5[i], b5[i]);
    }
}

fn gennamed(h: &[u8], opt: Option<String>) -> PacketCore {
    let nbytes = match &opt {
        Some(st) => st.as_bytes(),
        None => b"",
    };
    genbuf(h, nbytes, b"")
}

fn gencreds(u: &str, p: &str, opt: Option<String>) -> PacketCore {
    let bu = u.as_bytes();
    let bp = p.as_bytes();
    let start1 = NAME_SIZE + 4;
    let start2 = CORE_SIZE / 2 - NAME_SIZE / 2 + 2 + NAME_SIZE;
    let mut ret = gennamed(b"CHHC", opt);
    for i in 0..bu.len() {
        ret[i + start1] = bu[i];
    }
    for i in 0..bp.len() {
        ret[i + start2] = bp[i];
    }
    ret
}

fn genchhost(ip: &[u8], opt: Option<String>) -> PacketCore {
    let mut ret = gennamed(b"CHHO", opt);
    for i in 0..4 {
        ret[i + 4 + NAME_SIZE] = ip[i];
    }
    ret
}

#[test]
fn packet_core_to_backup_command() {
    let b1 = BackupCommand::from_core(&gennamed(b"FIRE", Some("Dummy".to_string())));
    let b2 = BackupCommand::from_core(&genbuf(b"CHTA", b"", b"/foo/bar"));
    let b3 = BackupCommand::from_core(&genbuf(b"CHSR", b"Dummy", b"/foo/bar/baz"));
    let b4 = BackupCommand::from_core(&gennamed(b"HAHO", None));
    let b5 = BackupCommand::from_core(&genchhost(&[192, 168, 1, 1], Some("Dummy".to_string())));
    let b6 = BackupCommand::from_core(&gencreds("foo", "bar", None));
    let b7 = BackupCommand::from_core(&gennamed(b"PIHO", Some("Dummy".to_string())));
    let b8 = BackupCommand::from_core(&gennamed(b"PRNT", None));
    let b9 = BackupCommand::from_core(&gennamed(b"BWAA", None));

    assert_eq!(b1, BackupCommand::Fire(Some("Dummy".to_string())));
    assert_eq!(
        b2,
        BackupCommand::ChangeTarget(None, "/foo/bar".to_string())
    );
    assert_eq!(
        b3,
        BackupCommand::ChangeSource(Some("Dummy".to_string()), "/foo/bar/baz".to_string())
    );
    assert_eq!(b4, BackupCommand::HasHostCapability(None));
    assert_eq!(
        b5,
        BackupCommand::ChangeHost(Some("Dummy".to_string()), [192, 168, 1, 1])
    );
    assert_eq!(
        b6,
        BackupCommand::ChangeHostCredentials(
            None,
            HostCredentials("foo".to_string(), "bar".to_string())
        )
    );
    assert_eq!(b7, BackupCommand::PingHost(Some("Dummy".to_string())));
    assert_eq!(b8, BackupCommand::Print(None));
    assert_eq!(b9, BackupCommand::Undef);
}

#[test]
fn backup_command_to_packet_core() {
    let b1 = BackupCommand::Fire(Some("Dummy".to_string())).to_core();
    let b2 = BackupCommand::ChangeTarget(None, "/foo/bar".to_string()).to_core();
    let b3 = BackupCommand::ChangeSource(Some("Dummy".to_string()), "/foo/bar/baz".to_string())
        .to_core();
    let b4 = BackupCommand::HasHostCapability(None).to_core();
    let b5 = BackupCommand::ChangeHost(Some("Dummy".to_string()), [192, 168, 1, 1]).to_core();
    let b6 = BackupCommand::ChangeHostCredentials(
        None,
        HostCredentials("foo".to_string(), "bar".to_string()),
    )
    .to_core();
    let b7 = BackupCommand::PingHost(Some("Dummy".to_string())).to_core();
    let b8 = BackupCommand::Print(None).to_core();
    let b9 = BackupCommand::Undef.to_core();

    let t1 = gennamed(b"FIRE", Some("Dummy".to_string()));
    let t2 = genbuf(b"CHTA", b"", b"/foo/bar");
    let t3 = genbuf(b"CHSR", b"Dummy", b"/foo/bar/baz");
    let t4 = gennamed(b"HAHO", None);
    let t5 = genchhost(&[192, 168, 1, 1], Some("Dummy".to_string()));
    let t6 = gencreds("foo", "bar", None);
    let t7 = gennamed(b"PIHO", Some("Dummy".to_string()));
    let t8 = gennamed(b"PRNT", None);

    for i in 0..CORE_SIZE {
        assert_eq!(b1[i], t1[i]);
        assert_eq!(b2[i], t2[i]);
        assert_eq!(b3[i], t3[i]);
        assert_eq!(b4[i], t4[i]);
        assert_eq!(b5[i], t5[i]);
        assert_eq!(b6[i], t6[i]);
        assert_eq!(b7[i], t7[i]);
        assert_eq!(b8[i], t8[i]);
        assert_eq!(b9[i], t8[i]);
    }
}

#[test]
fn packet_core_to_logger_command() {
    let h1 = b"WRIT";
    let h2 = b"BWAA";
    let m = b"FOO BAR BAZ";
    let mlen = m.len();
    let mut b1 = [0u8; CORE_SIZE];
    let mut b2 = [0u8; CORE_SIZE];

    for i in 0..4 {
        b1[i] = h1[i];
        b2[i] = h2[i];
    }

    for i in 0..mlen {
        b1[i + 4] = m[i];
        b2[i + 4] = m[i];
    }

    let t1 = LoggerCommand::from_core(&b1);
    let t2 = LoggerCommand::from_core(&b2);

    assert_eq!(t1, LoggerCommand::Write("FOO BAR BAZ".to_string()));
    assert_eq!(t2, LoggerCommand::Undef);
}

#[test]
fn logger_command_to_packet_core() {
    let h1 = b"WRIT";
    let m = b"FOO BAR BAZ";
    let mlen = m.len();
    let mut b1 = [0u8; CORE_SIZE];
    let mut b2 = [0u8; CORE_SIZE];

    for i in 0..4 {
        b1[i] = h1[i];
        b2[i] = h1[i];
    }

    for i in 0..mlen {
        b1[i + 4] = m[i];
    }

    let t1 = LoggerCommand::Write("FOO BAR BAZ".to_string()).to_core();
    let t2 = LoggerCommand::Undef.to_core();

    for i in 0..CORE_SIZE {
        assert_eq!(b1[i], t1[i]);
        assert_eq!(b2[i], t2[i]);
    }
}

#[test]
fn alive() {
    let p = Packet::new_alive("foo");
    let res = parse_alive(p);
    match res {
        Ok(s) => assert!(s.eq("foo")),
        Err(_) => assert!(false),
    }
}

#[test]
fn notification() {
    let p = Packet::new_ng("foo", "bar", "baz");
    let n = Notification::from_packet(p);
    assert!(n.good);
    assert!(n.message.eq("foo"));
    assert!(n.provider.eq("bar"));
    assert!(n.stage.eq("baz"));
    let p = Packet::new_nw("foo", "bar", "baz");
    let n = Notification::from_packet(p);

    assert!(n.good);
    assert!(n.message.eq("foo"));
    assert!(n.provider.eq("bar"));
    assert!(n.stage.eq("baz"));
    let p = Packet::new_ne("foo", "bar", "baz");
    let n = Notification::from_packet(p);

    assert!(n.good);
    assert!(n.message.eq("foo"));
    assert!(n.provider.eq("bar"));
    assert!(n.stage.eq("baz"));
    let p = Packet::new_alive("foo");
    let n = Notification::from_packet(p);

    assert!(!n.good);
}

#[test]
fn name_truncation_keeps_prefix() {
    let long: String = std::iter::repeat('a').take(150).collect();
    let core = NotifyCommand::ShutUp(Some(long.clone())).to_core();
    let decoded = NotifyCommand::from_core(&core);
    let expected: String = std::iter::repeat('a').take(100).collect();
    assert_eq!(decoded, NotifyCommand::ShutUp(Some(expected)));
}

#[test]
fn logger_text_truncates_to_field() {
    let long: String = std::iter::repeat('x').take(1100).collect();
    let core = LoggerCommand::Write(long).to_core();
    let decoded = LoggerCommand::from_core(&core);
    let expected: String = std::iter::repeat('x').take(1020).collect();
    assert_eq!(decoded, LoggerCommand::Write(expected));
}

#[test]
fn credentials_round_trip_full_width() {
    let user: String = std::iter::repeat('u').take(460).collect();
    let pass: String = std::iter::repeat('p').take(460).collect();
    let cmd = BackupCommand::ChangeHostCredentials(
        Some("n".to_string()),
        HostCredentials(user, pass),
    );
    let decoded = BackupCommand::from_core(&cmd.clone().to_core());
    assert_eq!(decoded, cmd);
}

#[test]
fn empty_name_decodes_to_none() {
    let core = NotifyCommand::Error(Some(String::new())).to_core();
    assert_eq!(NotifyCommand::from_core(&core), NotifyCommand::Error(None));
}

#[test]
fn core_2_string_stops_at_zero() {
    let bytes = [b'a', b'b', 0u8, b'c'];
    assert_eq!(core_2_string(&bytes), "ab".to_string());
}

#[test]
fn parse_alive_rejects_other_packets() {
    let res = parse_alive(Packet::new_term());
    match res {
        Ok(_) => assert!(false),
        Err(e) => assert_eq!(e.message(), "Not an ALIVE packet"),
    }
}

#[test]
fn get_core_of_unit_packets_is_zero() {
    let c = Packet::new_wh().get_core();
    for i in 0..CORE_SIZE {
        assert_eq!(c[i], 0u8);
    }
    let c = Packet::new_term().get_core();
    for i in 0..CORE_SIZE {
        assert_eq!(c[i], 0u8);
    }
}

#[test]
fn notification_to_string_renders() {
    let n = Notification {
        message: "ok".to_string(),
        provider: "mod".to_string(),
        stage: "END".to_string(),
        good: true,
    };
    assert_eq!(n.to_string(), "mod:ok at stage END");
    let bad = Notification {
        message: String::new(),
        provider: String::new(),
        stage: String::new(),
        good: false,
    };
    assert_eq!(bad.to_string(), "Wrong Notification Format");
}
