//! The control channel's command frames: one 1024-byte payload per
//! connection, a 4-byte header and a zero-padded argument.

use vstd::prelude::*;
use crate::packet::PacketCore;
use crate::packet::field_chars;
use crate::packet::fitted;
use crate::packet::zero_bytes;
use crate::packet::hdr;
use vstd::utf8::encode_utf8;
use crate::text::str_eq;

verus! {

/// Which list an operator asked for.
pub enum TcpCommandList {
    Running,
    Loaded,
}

/// A decoded control-channel command.
pub enum TcpCommand {
    List(TcpCommandList),
    Status(String),
    Stop(String),
    Terminate,
    Fire(String),
    Undef,
}

/// The mathematical value of a [`TcpCommand`].
pub enum TcpModel {
    ListRunning,
    ListLoaded,
    Status(Seq<char>),
    Stop(Seq<char>),
    Terminate,
    Fire(Seq<char>),
    Undef,
}

impl View for TcpCommand {
    type V = TcpModel;

    open spec fn view(&self) -> TcpModel {
        match self {
            TcpCommand::List(TcpCommandList::Running) => TcpModel::ListRunning,
            TcpCommand::List(TcpCommandList::Loaded) => TcpModel::ListLoaded,
            TcpCommand::Status(n) => TcpModel::Status(n@),
            TcpCommand::Stop(n) => TcpModel::Stop(n@),
            TcpCommand::Terminate => TcpModel::Terminate,
            TcpCommand::Fire(n) => TcpModel::Fire(n@),
            TcpCommand::Undef => TcpModel::Undef,
        }
    }
}

/// What any control frame decodes to. The argument field spans the whole
/// payload after the header.
pub open spec fn spec_tcp_decode(core: Seq<u8>) -> TcpModel {
    let h = core.subrange(0, 4);
    let arg = field_chars(core, 4, 1024);
    if h == hdr('L' as u8, 'I' as u8, 'S' as u8, 'T' as u8) {
        if arg == "running"@ {
            TcpModel::ListRunning
        } else if arg == "loaded"@ {
            TcpModel::ListLoaded
        } else {
            TcpModel::Undef
        }
    } else if h == hdr('S' as u8, 'T' as u8, 'A' as u8, 'T' as u8) {
        TcpModel::Status(arg)
    } else if h == hdr('S' as u8, 'T' as u8, 'O' as u8, 'P' as u8) {
        TcpModel::Stop(arg)
    } else if h == hdr('T' as u8, 'E' as u8, 'R' as u8, 'M' as u8) {
        TcpModel::Terminate
    } else if h == hdr('F' as u8, 'I' as u8, 'R' as u8, 'E' as u8) {
        TcpModel::Fire(arg)
    } else {
        TcpModel::Undef
    }
}

impl TcpCommand {
    /// Decodes a control frame; an unknown header, or an unknown list
    /// argument, gives `Undef`.
    pub fn from_core(core: &PacketCore) -> (r: Self)
        ensures
            r@ == spec_tcp_decode(core@),
    {
        if crate::packet::header_is(core, 'L' as u8, 'I' as u8, 'S' as u8, 'T' as u8) {
            let subcom = crate::packet::read_field(core, 4, 1024);
            if str_eq(subcom.as_str(), "running") {
                TcpCommand::List(TcpCommandList::Running)
            } else if str_eq(subcom.as_str(), "loaded") {
                TcpCommand::List(TcpCommandList::Loaded)
            } else {
                TcpCommand::Undef
            }
        } else if crate::packet::header_is(core, 'S' as u8, 'T' as u8, 'A' as u8, 'T' as u8) {
            TcpCommand::Status(crate::packet::read_field(core, 4, 1024))
        } else if crate::packet::header_is(core, 'S' as u8, 'T' as u8, 'O' as u8, 'P' as u8) {
            TcpCommand::Stop(crate::packet::read_field(core, 4, 1024))
        } else if crate::packet::header_is(core, 'T' as u8, 'E' as u8, 'R' as u8, 'M' as u8) {
            TcpCommand::Terminate
        } else if crate::packet::header_is(core, 'F' as u8, 'I' as u8, 'R' as u8, 'E' as u8) {
            TcpCommand::Fire(crate::packet::read_field(core, 4, 1024))
        } else {
            TcpCommand::Undef
        }
    }
}


/// The payload that encodes a control command, as the command-line client
/// frames it: the header, then the argument, zero-padded to the end.
/// `Undef` has no frame of its own and encodes to an all-zero payload.
pub open spec fn spec_tcp_encode(m: TcpModel) -> Seq<u8> {
    match m {
        TcpModel::ListRunning => hdr('L' as u8, 'I' as u8, 'S' as u8, 'T' as u8) + fitted(
            encode_utf8("running"@),
            1020,
        ),
        TcpModel::ListLoaded => hdr('L' as u8, 'I' as u8, 'S' as u8, 'T' as u8) + fitted(
            encode_utf8("loaded"@),
            1020,
        ),
        TcpModel::Status(n) => hdr('S' as u8, 'T' as u8, 'A' as u8, 'T' as u8) + fitted(
            encode_utf8(n),
            1020,
        ),
        TcpModel::Stop(n) => hdr('S' as u8, 'T' as u8, 'O' as u8, 'P' as u8) + fitted(
            encode_utf8(n),
            1020,
        ),
        TcpModel::Terminate => hdr('T' as u8, 'E' as u8, 'R' as u8, 'M' as u8) + zero_bytes(1020),
        TcpModel::Fire(n) => hdr('F' as u8, 'I' as u8, 'R' as u8, 'E' as u8) + fitted(
            encode_utf8(n),
            1020,
        ),
        TcpModel::Undef => zero_bytes(1024),
    }
}

impl TcpCommand {
    /// Encodes the command into a control frame.
    pub fn to_core(&self) -> (r: PacketCore)
        ensures
            r@ == spec_tcp_encode(self@),
    {
        let mut core: PacketCore = [0u8; 1024];
        match self {
            TcpCommand::List(TcpCommandList::Running) => {
                crate::packet::write_header(&mut core, 'L' as u8, 'I' as u8, 'S' as u8, 'T' as u8);
                crate::packet::write_field(&mut core, 4, 1020, "running".as_bytes());
            },
            TcpCommand::List(TcpCommandList::Loaded) => {
                crate::packet::write_header(&mut core, 'L' as u8, 'I' as u8, 'S' as u8, 'T' as u8);
                crate::packet::write_field(&mut core, 4, 1020, "loaded".as_bytes());
            },
            TcpCommand::Status(n) => {
                crate::packet::write_header(&mut core, 'S' as u8, 'T' as u8, 'A' as u8, 'T' as u8);
                crate::packet::write_field(&mut core, 4, 1020, n.as_str().as_bytes());
            },
            TcpCommand::Stop(n) => {
                crate::packet::write_header(&mut core, 'S' as u8, 'T' as u8, 'O' as u8, 'P' as u8);
                crate::packet::write_field(&mut core, 4, 1020, n.as_str().as_bytes());
            },
            TcpCommand::Terminate => {
                crate::packet::write_header(&mut core, 'T' as u8, 'E' as u8, 'R' as u8, 'M' as u8);
            },
            TcpCommand::Fire(n) => {
                crate::packet::write_header(&mut core, 'F' as u8, 'I' as u8, 'R' as u8, 'E' as u8);
                crate::packet::write_field(&mut core, 4, 1020, n.as_str().as_bytes());
            },
            TcpCommand::Undef => {},
        }
        proof {
            assert(core@ =~= spec_tcp_encode(self@));
        }
        core
    }
}

/// The argument a control command carries.
pub open spec fn tcp_arg(m: TcpModel) -> Seq<char> {
    match m {
        TcpModel::ListRunning => "running"@,
        TcpModel::ListLoaded => "loaded"@,
        TcpModel::Status(n) => n,
        TcpModel::Stop(n) => n,
        TcpModel::Terminate => Seq::empty(),
        TcpModel::Fire(n) => n,
        TcpModel::Undef => Seq::empty(),
    }
}

/// The fixed list arguments are clean and distinct.
proof fn lemma_list_args_clean()
    ensures
        crate::packet::clean("running"@),
        crate::packet::clean("loaded"@),
        "running"@ != "loaded"@,
        "running"@.len() == 7,
        "loaded"@.len() == 6,
{
    reveal_strlit("running");
    reveal_strlit("loaded");
    assert("running"@.len() == 7);
    assert("loaded"@.len() == 6);
    assert forall|i: int| 0 <= i < "running"@.len() implies crate::packet::is_clean_char(
        #[trigger] "running"@[i],
    ) by {
        if i == 0 {
            assert("running"@[0] == 'r');
        } else if i == 1 {
            assert("running"@[1] == 'u');
        } else if i == 2 {
            assert("running"@[2] == 'n');
        } else if i == 3 {
            assert("running"@[3] == 'n');
        } else if i == 4 {
            assert("running"@[4] == 'i');
        } else if i == 5 {
            assert("running"@[5] == 'n');
        } else {
            assert("running"@[6] == 'g');
        }
    }
    assert forall|i: int| 0 <= i < "loaded"@.len() implies crate::packet::is_clean_char(
        #[trigger] "loaded"@[i],
    ) by {
        if i == 0 {
            assert("loaded"@[0] == 'l');
        } else if i == 1 {
            assert("loaded"@[1] == 'o');
        } else if i == 2 {
            assert("loaded"@[2] == 'a');
        } else if i == 3 {
            assert("loaded"@[3] == 'd');
        } else if i == 4 {
            assert("loaded"@[4] == 'e');
        } else {
            assert("loaded"@[5] == 'd');
        }
    }
}

/// Law (frame round-trip): decoding an encoded control command returns it
/// unchanged, for every command other than `Undef` whose argument is clean
/// and fits the frame.
pub proof fn lemma_tcp_round_trip(m: TcpModel)
    requires
        !(m is Undef),
        crate::packet::clean(tcp_arg(m)),
        tcp_arg(m).len() <= 1020,
    ensures
        spec_tcp_decode(spec_tcp_encode(m)) == m,
{
    let core = spec_tcp_encode(m);
    lemma_list_args_clean();
    match m {
        TcpModel::ListRunning => {
            assert(core.subrange(0, 4) =~= hdr('L' as u8, 'I' as u8, 'S' as u8, 'T' as u8));
            assert(core.subrange(4, 1024) =~= fitted(encode_utf8("running"@), 1020));
            crate::packet::lemma_field_store("running"@, 1020);
        },
        TcpModel::ListLoaded => {
            assert(core.subrange(0, 4) =~= hdr('L' as u8, 'I' as u8, 'S' as u8, 'T' as u8));
            assert(core.subrange(4, 1024) =~= fitted(encode_utf8("loaded"@), 1020));
            crate::packet::lemma_field_store("loaded"@, 1020);
        },
        TcpModel::Status(n) => {
            assert(core.subrange(0, 4) =~= hdr('S' as u8, 'T' as u8, 'A' as u8, 'T' as u8));
            assert(core.subrange(4, 1024) =~= fitted(encode_utf8(n), 1020));
            crate::packet::lemma_field_store(n, 1020);
        },
        TcpModel::Stop(n) => {
            assert(core.subrange(0, 4) =~= hdr('S' as u8, 'T' as u8, 'O' as u8, 'P' as u8));
            assert(core.subrange(4, 1024) =~= fitted(encode_utf8(n), 1020));
            crate::packet::lemma_field_store(n, 1020);
        },
        TcpModel::Terminate => {
            assert(core.subrange(0, 4) =~= hdr('T' as u8, 'E' as u8, 'R' as u8, 'M' as u8));
        },
        TcpModel::Fire(n) => {
            assert(core.subrange(0, 4) =~= hdr('F' as u8, 'I' as u8, 'R' as u8, 'E' as u8));
            assert(core.subrange(4, 1024) =~= fitted(encode_utf8(n), 1020));
            crate::packet::lemma_field_store(n, 1020);
        },
        TcpModel::Undef => {},
    }
}

} // verus!
