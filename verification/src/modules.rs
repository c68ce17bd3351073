//! The modules this build knows: their endpoint state, their bus filters,
//! and the pure parts of their behaviour. Their fire functions do outside
//! work and run with the workers, outside this crate.

use vstd::prelude::*;
use crate::module::ModuleCell;
use crate::module::RUN_IDLE;
use crate::packet::PacketTag;
use crate::packet::Packet;
use crate::packet::Notification;
use crate::packet::LoggerCommand;
use crate::packet::LoggerModel;
use crate::packet::spec_logger_decode;
use crate::packet::field_chars;
use crate::text::str_eq;
use vstd::string::StringExecFns;

verus! {

/// The packet tags a module of the given registry name accepts into its
/// inbox. Command packets (`Fire`, `Stop`, `Terminate`) are not listed:
/// the default input routing consumes them for every module.
pub open spec fn spec_accepts_for(name: Seq<char>) -> Seq<PacketTag> {
    if name == "stdlogger"@ {
        seq![PacketTag::NotifyGood, PacketTag::NotifyWarn, PacketTag::NotifyErr, PacketTag::LoggerCom]
    } else if name == "reporter"@ {
        seq![PacketTag::NotifyGood, PacketTag::NotifyWarn, PacketTag::NotifyErr]
    } else {
        Seq::empty()
    }
}

/// The inbox filter of a module, by registry name.
pub fn accepts_for(name: &str) -> (r: Vec<PacketTag>)
    ensures
        r@ == spec_accepts_for(name@),
{
    if str_eq(name, "stdlogger") {
        let mut v: Vec<PacketTag> = Vec::new();
        v.push(PacketTag::NotifyGood);
        v.push(PacketTag::NotifyWarn);
        v.push(PacketTag::NotifyErr);
        v.push(PacketTag::LoggerCom);
        proof {
            assert(v@ =~= spec_accepts_for(name@));
        }
        v
    } else if str_eq(name, "reporter") {
        let mut v: Vec<PacketTag> = Vec::new();
        v.push(PacketTag::NotifyGood);
        v.push(PacketTag::NotifyWarn);
        v.push(PacketTag::NotifyErr);
        proof {
            assert(v@ =~= spec_accepts_for(name@));
        }
        v
    } else {
        Vec::new()
    }
}

/// A placeholder module whose fire function only writes one line to a file;
/// it accepts nothing into its inbox.
pub struct Dummy {
    pub cell: ModuleCell,
}

impl Dummy {
    pub fn new(config_filename: Option<String>) -> (r: Self)
        ensures
            r.cell@.name == "Dummy"@,
            r.cell@.run_status == RUN_IDLE,
            r.cell@.emit_alive == false,
            r.cell@.stack.len() == 0,
            r.cell@.inbox.len() == 0,
            r.cell@.accepts.len() == 0,
            r.cell@.config == crate::packet::opt_view(config_filename),
    {
        Dummy { cell: ModuleCell::new("Dummy".to_owned(), config_filename, Vec::new()) }
    }
}

/// The logger module that prints every notification and every logger
/// command to the terminal.
pub struct StdLogger {
    pub cell: ModuleCell,
}

impl StdLogger {
    pub fn new(config_filename: Option<String>) -> (r: Self)
        ensures
            r.cell@.name == "StdLogger"@,
            r.cell@.run_status == RUN_IDLE,
            r.cell@.emit_alive == false,
            r.cell@.stack.len() == 0,
            r.cell@.inbox.len() == 0,
            r.cell@.accepts == spec_accepts_for("stdlogger"@),
            r.cell@.config == crate::packet::opt_view(config_filename),
    {
        proof {
            reveal_strlit("stdlogger");
            reveal_strlit("StdLogger");
            reveal_strlit("reporter");
            assert("stdlogger"@.len() == 9);
            assert("reporter"@.len() == 8);
            assert("stdlogger"@ != "reporter"@);
        }
        let accepts = accepts_for("stdlogger");
        StdLogger { cell: ModuleCell::new("StdLogger".to_owned(), config_filename, accepts) }
    }

    /// The line the logger prints for a packet, without its time prefix:
    /// notifications render through their standard form, logger commands
    /// print their text, and every other packet prints nothing.
    pub fn render(p: &Packet) -> (r: Option<String>)
        ensures
            match *p {
                Packet::NotifyGood(c) => r matches Some(s) && s@ == rendered_notification(c@),
                Packet::NotifyWarn(c) => r matches Some(s) && s@ == rendered_notification(c@),
                Packet::NotifyErr(c) => r matches Some(s) && s@ == rendered_notification(c@),
                Packet::LoggerCom(c) => match spec_logger_decode(c@) {
                    LoggerModel::Write(t) => r matches Some(s) && s@ == t,
                    LoggerModel::Undef => r is None,
                },
                _ => r is None,
            },
    {
        match p {
            Packet::NotifyGood(_) | Packet::NotifyWarn(_) | Packet::NotifyErr(_) => {
                let n = Notification::from_packet(*p);
                Some(n.to_string())
            },
            Packet::LoggerCom(c) => {
                match LoggerCommand::from_core(c) {
                    LoggerCommand::Write(s) => Some(s),
                    LoggerCommand::Undef => None,
                }
            },
            _ => None,
        }
    }
}

/// The standard rendering of a notification payload.
pub open spec fn rendered_notification(core: Seq<u8>) -> Seq<char> {
    field_chars(core, 341, 682) + ":"@ + field_chars(core, 0, 341) + " at stage "@ + field_chars(
        core,
        682,
        1023,
    )
}

/// The report collector: it gathers notifications and mails a report when
/// fired.
pub struct Reporter {
    pub cell: ModuleCell,
}

impl Reporter {
    pub fn new(config_filename: Option<String>) -> (r: Self)
        ensures
            r.cell@.name == "reporter"@,
            r.cell@.run_status == RUN_IDLE,
            r.cell@.emit_alive == false,
            r.cell@.stack.len() == 0,
            r.cell@.inbox.len() == 0,
            r.cell@.accepts == spec_accepts_for("reporter"@),
            r.cell@.config == crate::packet::opt_view(config_filename),
    {
        proof {
            reveal_strlit("reporter");
            reveal_strlit("stdlogger");
        }
        let accepts = accepts_for("reporter");
        Reporter { cell: ModuleCell::new("reporter".to_owned(), config_filename, accepts) }
    }
}

/// The backup module built around an external transfer command; its work
/// happens in its fire function, outside this crate.
pub struct Rsync {
    pub cell: ModuleCell,
}

impl Rsync {
    pub fn new(config_filename: Option<String>) -> (r: Self)
        ensures
            r.cell@.name == "rsync"@,
            r.cell@.run_status == RUN_IDLE,
            r.cell@.emit_alive == false,
            r.cell@.stack.len() == 0,
            r.cell@.inbox.len() == 0,
            r.cell@.accepts.len() == 0,
            r.cell@.config == crate::packet::opt_view(config_filename),
    {
        proof {
            reveal_strlit("rsync");
            reveal_strlit("stdlogger");
            reveal_strlit("reporter");
            assert("rsync"@.len() == 5);
            assert("stdlogger"@.len() == 9);
            assert("reporter"@.len() == 8);
        }
        let accepts = accepts_for("rsync");
        Rsync { cell: ModuleCell::new("rsync".to_owned(), config_filename, accepts) }
    }
}


/// The temporary report file a reporter of the given name writes.
pub fn tmp_format(s: &str) -> (r: String)
    ensures
        r@ == "/tmp/"@ + s@ + ".bach.report"@,
{
    let mut r = "/tmp/".to_owned();
    r.append(s);
    r.append(".bach.report");
    r
}

/// Queues one logger write command on a module's message-stack.
pub fn push_write_command(format: String, message_stack: &mut Vec<Packet>) -> (r:
    crate::module::ModResult<()>)
    ensures
        r is Ok,
        final(message_stack)@.len() == old(message_stack)@.len() + 1,
        final(message_stack)@.drop_last() == old(message_stack)@,
        final(message_stack)@.last() matches Packet::LoggerCom(c) && c@
            == crate::packet::spec_logger_encode(crate::packet::LoggerModel::Write(format@)),
{
    let p = Packet::LoggerCom(LoggerCommand::Write(format).to_core());
    message_stack.push(p);
    proof {
        assert(final(message_stack)@.drop_last() =~= old(message_stack)@);
    }
    Ok(())
}


/// One source prefix the reporter collects notifications for.
#[derive(Debug, Clone)]
pub struct ReporterSource(pub String);

/// One argument of the reporter's mail command.
#[derive(Debug, Clone)]
pub struct ReporterCommandArgument(pub String);

/// The command the reporter runs to mail a report; the first argument is
/// the program.
#[derive(Debug, Clone)]
pub struct ReporterCommand {
    pub arg: Vec<ReporterCommandArgument>,
}

/// The reporter's configuration.
#[derive(Debug, Clone)]
pub struct ReporterConfig {
    pub name: String,
    pub source: Vec<ReporterSource>,
    pub template: Option<String>,
    pub mail_cmd: ReporterCommand,
    pub level: String,
}

} // verus!
