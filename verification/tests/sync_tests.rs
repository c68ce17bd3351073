use bach::sync::error::Error;
use bach::sync::error::Kind;
use bach::sync::synchrotrait::SynchroError;
use bach::sync::task::TaskCron;
use bach::sync::task::get_month_len_as_secs;
use bach::sync::taskrunner::TaskError;
use bach::sync::threadmessage::ThreadMessage;
use bach::sync::utils::str2u8;
use bach::text::u64_to_string;
use bach::sync::scriptrunner::ScriptRunner;
use bach::sync::synchrotrait::SynchroState;
use bach::sync::task::TaskCustomOkReturnCodes;
use bach::sync::task::TaskCustomWarnReturnCodes;
use bach::sync::task::TaskCustomErrorReturnCodes;
use bach::sync::task::TaskCustomScript;

#[test]
fn error_to_string_renders_every_part() {
    assert_eq!(Error::new_badret(42).to_string(), "Mauvais code retour :: Code: 42");
    assert_eq!(
        Error::new_incompat("nope").to_string(),
        "Command Incompatible :: Message: nope"
    );
    assert_eq!(
        Error::new(Kind::Generic, Some(7), Some("x")).to_string(),
        "Erreur :: Code: 7 :: Message: x"
    );
    assert_eq!(Error::new_wrsource("s").to_string(), "Chemin Source Erroné :: Message: s");
    assert_eq!(Error::new_wrdest("d").to_string(), "Chemin de destination éronné :: Message: d");
    assert_eq!(Error::new_wrnet("n").to_string(), "Cible réseau éronnée :: Message: n");
    assert_eq!(
        Error::new_sshpwd("p").to_string(),
        "SSH demande un mot de passe :: Message: p"
    );
}

#[test]
fn decimal_rendering_is_exact() {
    assert_eq!(u64_to_string(0), "0");
    assert_eq!(u64_to_string(10), "10");
    assert_eq!(u64_to_string(90125), "90125");
    assert_eq!(u64_to_string(u64::MAX), "18446744073709551615");
}

#[test]
fn thread_messages_carry_text_and_code() {
    let m = ThreadMessage::info("all good", 3);
    assert_eq!(m.get_message(), "all good");
    assert_eq!(m.get_code(), 3);
    assert_eq!(m.to_string(), "INFO : Code all good :: Message 3");
    let w = ThreadMessage::warn("meh", 9);
    assert_eq!(w.to_string(), "WARNING : Code meh :: Message 9");
    let e = ThreadMessage::from_error(std::io::Error::new(std::io::ErrorKind::Other, "io"));
    assert_eq!(e.get_code(), 42);
}

#[test]
fn synchro_and_task_errors_expose_fields() {
    let s = SynchroError::new("sync failed".to_string(), 144);
    assert_eq!(s.code(), 144);
    assert_eq!(s.message(), "sync failed");
    let t = TaskError::new("task failed", 2);
    assert_eq!(t.code(), 2);
    assert_eq!(t.message(), "task failed");
}

#[test]
fn task_cron_whence_formula() {
    let c = TaskCron { year: 1, month: 2, day: 3, hour: 4, min: 5 };
    let month = get_month_len_as_secs(1, false);
    assert_eq!(month, 2678400);
    assert_eq!(get_month_len_as_secs(2, true), 2505600);
    assert_eq!(get_month_len_as_secs(2, false), 2419200);
    assert_eq!(get_month_len_as_secs(4, false), 2592000);
    let whence = c.get_whence(month, 31536000);
    assert_eq!(whence, 5 * 60 + 4 * 3600 + 3 * 86400 + 2 * 2678400 + 31536000);
}

#[test]
fn str2u8_pads_and_truncates() {
    let short = str2u8("abc");
    assert_eq!(&short[0..3], b"abc");
    for i in 3..32 {
        assert_eq!(short[i], 0);
    }
    let long_src: String = std::iter::repeat('z').take(40).collect();
    let long = str2u8(&long_src);
    for i in 0..30 {
        assert_eq!(long[i], b'z');
    }
    assert_eq!(long[30], 0);
    assert_eq!(long[31], 0);
}

#[test]
fn script_exit_codes_are_judged_by_their_lists() {
    let runner = ScriptRunner(TaskCustomScript {
        file: "/usr/local/bin/backup.sh".to_string(),
        interpretor: None,
        ok_return_codes: TaskCustomOkReturnCodes(vec![0]),
        warn_return_codes: TaskCustomWarnReturnCodes(vec![1, 2]),
        err_return_codes: TaskCustomErrorReturnCodes(vec![-1, 3]),
    });
    assert!(matches!(runner.judge(Some(0)), Ok(SynchroState::Good(0))));
    assert!(matches!(runner.judge(Some(2)), Ok(SynchroState::Warn(2))));
    assert!(matches!(runner.judge(Some(99)), Ok(SynchroState::Warn(0))));
    assert!(matches!(runner.judge(None), Ok(SynchroState::Warn(0))));
    match runner.judge(Some(-1)) {
        Err(e) => {
            assert_eq!(e.code(), 32);
            assert_eq!(
                e.message(),
                "Synchro échouée : Le script a renvoyé une valeur de -1"
            );
        }
        _ => assert!(false),
    }
}
