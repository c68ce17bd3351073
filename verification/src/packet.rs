//! The fixed-size packet codec.
//!
//! Every packet payload is a 1024-byte buffer (a [`PacketCore`]). Command
//! packets carry a 4-byte ASCII header, then zero-padded string fields at
//! fixed offsets. Decoding a field reads bytes up to the first zero byte
//! (the sentinel); a field written full-width has no sentinel and is read to
//! the field boundary. An unrecognized header decodes to the `Undef` variant
//! of the command family, never to a failure.

use vstd::prelude::*;
use vstd::utf8::encode_utf8;
use vstd::utf8::is_ascii_chars;
use vstd::utf8::is_ascii_chars_encode_utf8;
use vstd::utf8::char_u32_cast;
use vstd::string::StringSliceAdditionalSpecFns;
use vstd::string::StringExecFns;
use crate::text::push_char;

verus! {

/// Size in bytes of every packet payload.
pub const CORE_SIZE: usize = 1024;

/// Width in bytes of the name field of command-bearing packets.
pub const NAME_SIZE: usize = 100;

/// A packet payload: a fixed 1024-byte buffer.
pub type PacketCore = [u8; 1024];

/// The bytes of `s` that precede its first zero byte.
pub open spec fn until_zero(s: Seq<u8>) -> Seq<u8>
    decreases s.len(),
{
    if s.len() == 0 {
        s
    } else if s[0] == 0u8 {
        Seq::empty()
    } else {
        seq![s[0]] + until_zero(s.drop_first())
    }
}

/// The characters obtained by reading each byte as one character.
pub open spec fn chars_of(s: Seq<u8>) -> Seq<char> {
    s.map_values(|b: u8| b as char)
}

/// `n` zero bytes.
pub open spec fn zero_bytes(n: int) -> Seq<u8> {
    Seq::new(n as nat, |i: int| 0u8)
}

/// `b` truncated to at most `w` bytes, then zero-padded to exactly `w` bytes:
/// the contents of a field of width `w` after `b` is stored into it.
pub open spec fn fitted(b: Seq<u8>, w: int) -> Seq<u8> {
    if b.len() <= w {
        b + zero_bytes(w - b.len())
    } else {
        b.subrange(0, w)
    }
}

/// The string stored in the field of `core` spanning `start..end`.
pub open spec fn field_chars(core: Seq<u8>, start: int, end: int) -> Seq<char> {
    chars_of(until_zero(core.subrange(start, end)))
}

/// An empty field decodes to `None`, a non-empty one to its string.
pub open spec fn opt_of(s: Seq<char>) -> Option<Seq<char>> {
    if s.len() == 0 {
        None
    } else {
        Some(s)
    }
}

/// The optional name carried at offset 4, up to `NAME_SIZE` bytes.
pub open spec fn name_of(core: Seq<u8>) -> Option<Seq<char>> {
    opt_of(field_chars(core, 4, 104))
}

/// The view of an optional string.
pub open spec fn opt_view(o: Option<String>) -> Option<Seq<char>> {
    match o {
        Some(s) => Some(s@),
        None => None,
    }
}

/// The UTF-8 bytes of an optional string; `None` stores no bytes.
pub open spec fn utf8_of(s: Option<Seq<char>>) -> Seq<u8> {
    match s {
        Some(x) => encode_utf8(x),
        None => Seq::empty(),
    }
}

/// A 4-byte header.
pub open spec fn hdr(a: u8, b: u8, c: u8, d: u8) -> Seq<u8> {
    seq![a, b, c, d]
}

/// Characters that a zero-terminated field stores and returns unchanged:
/// ASCII, and none of them the zero sentinel.
pub open spec fn clean(s: Seq<char>) -> bool {
    forall|i: int| 0 <= i < s.len() ==> is_clean_char(#[trigger] s[i])
}

/// A character that one field byte can store and return: ASCII and not the
/// zero sentinel.
pub open spec fn is_clean_char(c: char) -> bool {
    0 < (c as u32) && (c as u32) < 128
}

pub proof fn lemma_until_zero_all_nonzero(s: Seq<u8>)
    requires
        forall|i: int| 0 <= i < s.len() ==> s[i] != 0u8,
    ensures
        until_zero(s) == s,
    decreases s.len(),
{
    if s.len() == 0 {
        assert(until_zero(s) =~= s);
    } else {
        lemma_until_zero_all_nonzero(s.drop_first());
        assert(until_zero(s) =~= s);
    }
}

pub proof fn lemma_until_zero_stops(s: Seq<u8>, k: int)
    requires
        0 <= k < s.len(),
        s[k] == 0u8,
        forall|i: int| 0 <= i < k ==> s[i] != 0u8,
    ensures
        until_zero(s) == s.subrange(0, k),
    decreases s.len(),
{
    if k == 0 {
        assert(until_zero(s) =~= s.subrange(0, 0));
    } else {
        lemma_until_zero_stops(s.drop_first(), k - 1);
        assert(s.drop_first().subrange(0, k - 1) =~= s.subrange(1, k));
        assert(until_zero(s) =~= seq![s[0]] + s.subrange(1, k));
        assert(until_zero(s) =~= s.subrange(0, k));
    }
}

/// An ASCII character survives the round trip through its byte.
pub proof fn lemma_ascii_cast(c: char)
    requires
        (c as u32) < 128,
    ensures
        (c as u8) as char == c,
{
    char_u32_cast(c, c as u32);
    assert((c as u8) as u32 == c as u32);
    assert((c as u8) as char == (c as u32) as char);
}

/// What a field of width `w` returns after clean characters were stored in
/// it: the characters themselves if they fit, else their first `w`.
pub proof fn lemma_field_store(s: Seq<char>, w: int)
    requires
        clean(s),
        0 <= w,
    ensures
        chars_of(until_zero(fitted(encode_utf8(s), w))) == if s.len() <= w {
            s
        } else {
            s.subrange(0, w)
        },
{
    assert(is_ascii_chars(s)) by {
        assert forall|i: int| 0 <= i < s.len() implies '\0' <= #[trigger] s[i] <= '\u{7f}' by {
            assert(is_clean_char(s[i]));
            char_u32_cast(s[i], s[i] as u32);
            assert('\0' as u32 == 0);
            assert('\u{7f}' as u32 == 127);
            assert(s[i] as u32 <= 127);
            assert('\0' <= s[i]);
            assert(s[i] <= '\u{7f}');
        }
    }
    is_ascii_chars_encode_utf8(s);
    let b = encode_utf8(s);
    assert(b.len() == s.len());
    assert(forall|i: int| 0 <= i < b.len() ==> b[i] == (#[trigger] s[i]) as u8);
    assert(forall|i: int| 0 <= i < b.len() ==> b[i] != 0u8) by {
        assert(forall|i: int| 0 <= i < s.len() ==> is_clean_char(#[trigger] s[i]));
    }
    if s.len() <= w {
        let f = fitted(b, w);
        if b.len() == w {
            assert(f =~= b);
            lemma_until_zero_all_nonzero(f);
        } else {
            assert(f[b.len() as int] == 0u8);
            assert(forall|i: int| 0 <= i < b.len() ==> f[i] == b[i]);
            lemma_until_zero_stops(f, b.len() as int);
            assert(f.subrange(0, b.len() as int) =~= b);
        }
        assert(until_zero(fitted(b, w)) == b);
        assert(chars_of(b) =~= s) by {
            assert forall|i: int| 0 <= i < s.len() implies chars_of(b)[i] == s[i] by {
                lemma_ascii_cast(s[i]);
            }
        }
    } else {
        let f = b.subrange(0, w);
        lemma_until_zero_all_nonzero(f);
        assert(chars_of(f) =~= s.subrange(0, w)) by {
            assert forall|i: int| 0 <= i < w implies chars_of(f)[i] == s.subrange(0, w)[i] by {
                lemma_ascii_cast(s[i]);
            }
        }
    }
}

/// Reads the zero-terminated string stored in the field `start..end`.
pub(crate) fn read_field(core: &PacketCore, start: usize, end: usize) -> (r: String)
    requires
        start <= end,
        end <= 1024,
    ensures
        r@ == field_chars(core@, start as int, end as int),
{
    let mut r = String::new();
    let mut i = start;
    while i < end && core[i] != 0u8
        invariant
            start <= i <= end,
            end <= 1024,
            core@.len() == 1024,
            forall|j: int| start <= j < i ==> core@[j] != 0u8,
            r@ == chars_of(core@.subrange(start as int, i as int)),
        decreases end - i,
    {
        let c = core[i] as char;
        push_char(&mut r, c);
        proof {
            assert(core@.subrange(start as int, i + 1 as int) =~= core@.subrange(
                start as int,
                i as int,
            ).push(core@[i as int]));
            assert(chars_of(core@.subrange(start as int, i + 1 as int)) =~= chars_of(
                core@.subrange(start as int, i as int),
            ).push(core@[i as int] as char));
        }
        i = i + 1;
    }
    proof {
        let f = core@.subrange(start as int, end as int);
        if i == end {
            lemma_until_zero_all_nonzero(f);
            assert(core@.subrange(start as int, i as int) =~= f);
        } else {
            lemma_until_zero_stops(f, i - start);
            assert(core@.subrange(start as int, i as int) =~= f.subrange(0, i - start));
        }
    }
    r
}

/// Writes `data`, truncated to `width` bytes, at `start` into a region that
/// still holds zeros; the field then holds `fitted(data, width)`.
pub(crate) fn write_field(core: &mut PacketCore, start: usize, width: usize, data: &[u8])
    requires
        start + width <= 1024,
        forall|i: int| start <= i < start + width ==> old(core)@[i] == 0u8,
    ensures
        final(core)@.subrange(start as int, (start + width) as int) == fitted(
            data@,
            width as int,
        ),
        forall|i: int|
            0 <= i < 1024 && !(start <= i < start + width) ==> final(core)@[i] == old(core)@[i],
{
    let n = if data.len() < width {
        data.len()
    } else {
        width
    };
    let mut i: usize = 0;
    while i < n
        invariant
            i <= n,
            n <= width,
            n <= data@.len(),
            start + width <= 1024,
            core@.len() == 1024,
            forall|j: int| 0 <= j < i ==> core@[start + j] == data@[j],
            forall|j: int| start + i <= j < start + width ==> core@[j] == old(core)@[j],
            forall|j: int|
                0 <= j < 1024 && !(start <= j < start + width) ==> core@[j] == old(core)@[j],
        decreases n - i,
    {
        core[start + i] = data[i];
        i = i + 1;
    }
    proof {
        assert(core@.subrange(start as int, (start + width) as int) =~= fitted(
            data@,
            width as int,
        ));
    }
}

/// Reads the optional name field at offset 4: `None` when the field is
/// empty.
fn read_name(core: &PacketCore) -> (r: Option<String>)
    ensures
        opt_view(r) == name_of(core@),
{
    let s = read_field(core, 4, 104);
    if s.as_str().is_empty() {
        None
    } else {
        Some(s)
    }
}

/// Writes the 4-byte command header.
pub(crate) fn write_header(core: &mut PacketCore, a: u8, b: u8, c: u8, d: u8)
    ensures
        final(core)@.subrange(0, 4) == hdr(a, b, c, d),
        forall|i: int| 4 <= i < 1024 ==> final(core)@[i] == old(core)@[i],
{
    core[0] = a;
    core[1] = b;
    core[2] = c;
    core[3] = d;
    proof {
        assert(core@.subrange(0, 4) =~= hdr(a, b, c, d));
    }
}

/// True exactly when the header bytes of `core` are `a b c d`.
pub(crate) fn header_is(core: &PacketCore, a: u8, b: u8, c: u8, d: u8) -> (r: bool)
    ensures
        r == (core@.subrange(0, 4) == hdr(a, b, c, d)),
{
    let m = core[0] == a && core[1] == b && core[2] == c && core[3] == d;
    proof {
        assert(core@.subrange(0, 4) =~= seq![core@[0], core@[1], core@[2], core@[3]]);
        if m {
            assert(core@.subrange(0, 4) =~= hdr(a, b, c, d));
        } else {
            assert(core@.subrange(0, 4) != hdr(a, b, c, d)) by {
                assert(hdr(a, b, c, d)[0] == a);
                assert(hdr(a, b, c, d)[1] == b);
                assert(hdr(a, b, c, d)[2] == c);
                assert(hdr(a, b, c, d)[3] == d);
            }
        }
    }
    m
}

/// Writes the optional name into its field at offset 4.
fn write_opt_name(core: &mut PacketCore, name: &Option<String>)
    requires
        forall|i: int| 4 <= i < 104 ==> old(core)@[i] == 0u8,
    ensures
        final(core)@.subrange(4, 104) == fitted(utf8_of(opt_view(*name)), 100),
        forall|i: int| 0 <= i < 1024 && !(4 <= i < 104) ==> final(core)@[i] == old(core)@[i],
{
    match name {
        Some(s) => {
            write_field(core, 4, 100, s.as_str().as_bytes());
        },
        None => {
            proof {
                assert(core@.subrange(4, 104) =~= fitted(utf8_of(opt_view(*name)), 100));
            }
        },
    }
}

/// Translates raw bytes to a string: every byte before the first zero byte
/// becomes one character.
pub fn core_2_string(s: &[u8]) -> (r: String)
    ensures
        r@ == chars_of(until_zero(s@)),
{
    let mut r = String::new();
    let mut i: usize = 0;
    let end = s.len();
    while i < end && s[i] != 0u8
        invariant
            i <= end,
            end == s@.len(),
            forall|j: int| 0 <= j < i ==> s@[j] != 0u8,
            r@ == chars_of(s@.subrange(0, i as int)),
        decreases end - i,
    {
        let c = s[i] as char;
        push_char(&mut r, c);
        proof {
            assert(s@.subrange(0, i + 1 as int) =~= s@.subrange(0, i as int).push(s@[i as int]));
            assert(chars_of(s@.subrange(0, i + 1 as int)) =~= chars_of(
                s@.subrange(0, i as int),
            ).push(s@[i as int] as char));
        }
        i = i + 1;
    }
    proof {
        if i == end {
            lemma_until_zero_all_nonzero(s@);
            assert(s@.subrange(0, i as int) =~= s@);
        } else {
            lemma_until_zero_stops(s@, i as int);
        }
    }
    r
}

} // verus!

// ------------------------------------------------------------------
// Notify commands: SHUT / ERRO / WARN / DEBU, with an optional name.
// ------------------------------------------------------------------

verus! {

/// A command understood by notifier modules.
#[derive(Clone, Debug, Eq, PartialEq)]
pub enum NotifyCommand {
    ShutUp(Option<String>),
    Error(Option<String>),
    Warning(Option<String>),
    Debug(Option<String>),
    Undef,
}

/// The mathematical value of a [`NotifyCommand`].
pub enum NotifyModel {
    ShutUp(Option<Seq<char>>),
    Error(Option<Seq<char>>),
    Warning(Option<Seq<char>>),
    Debug(Option<Seq<char>>),
    Undef,
}

impl View for NotifyCommand {
    type V = NotifyModel;

    open spec fn view(&self) -> NotifyModel {
        match self {
            NotifyCommand::ShutUp(n) => NotifyModel::ShutUp(opt_view(*n)),
            NotifyCommand::Error(n) => NotifyModel::Error(opt_view(*n)),
            NotifyCommand::Warning(n) => NotifyModel::Warning(opt_view(*n)),
            NotifyCommand::Debug(n) => NotifyModel::Debug(opt_view(*n)),
            NotifyCommand::Undef => NotifyModel::Undef,
        }
    }
}

/// What any 1024-byte payload decodes to as a notify command.
pub open spec fn spec_notify_decode(core: Seq<u8>) -> NotifyModel {
    let name = name_of(core);
    let h = core.subrange(0, 4);
    if h == hdr('S' as u8, 'H' as u8, 'U' as u8, 'T' as u8) {
        NotifyModel::ShutUp(name)
    } else if h == hdr('E' as u8, 'R' as u8, 'R' as u8, 'O' as u8) {
        NotifyModel::Error(name)
    } else if h == hdr('W' as u8, 'A' as u8, 'R' as u8, 'N' as u8) {
        NotifyModel::Warning(name)
    } else if h == hdr('D' as u8, 'E' as u8, 'B' as u8, 'U' as u8) {
        NotifyModel::Debug(name)
    } else {
        NotifyModel::Undef
    }
}

/// A header, the optional name field, and zeros to the end.
pub open spec fn named_core(h: Seq<u8>, name: Option<Seq<char>>) -> Seq<u8> {
    h + fitted(utf8_of(name), 100) + zero_bytes(920)
}

/// The payload that encodes a notify command. `Undef` has no encoding of its
/// own and falls back to an empty warning.
pub open spec fn spec_notify_encode(m: NotifyModel) -> Seq<u8> {
    match m {
        NotifyModel::ShutUp(n) => named_core(hdr('S' as u8, 'H' as u8, 'U' as u8, 'T' as u8), n),
        NotifyModel::Error(n) => named_core(hdr('E' as u8, 'R' as u8, 'R' as u8, 'O' as u8), n),
        NotifyModel::Warning(n) => named_core(hdr('W' as u8, 'A' as u8, 'R' as u8, 'N' as u8), n),
        NotifyModel::Debug(n) => named_core(hdr('D' as u8, 'E' as u8, 'B' as u8, 'U' as u8), n),
        NotifyModel::Undef => named_core(hdr('W' as u8, 'A' as u8, 'R' as u8, 'N' as u8), None),
    }
}

impl NotifyCommand {
    /// Decodes a payload; an unknown header gives `Undef`.
    pub fn from_core(core: &PacketCore) -> (r: Self)
        ensures
            r@ == spec_notify_decode(core@),
    {
        if header_is(core, 'S' as u8, 'H' as u8, 'U' as u8, 'T' as u8) {
            NotifyCommand::ShutUp(read_name(core))
        } else if header_is(core, 'E' as u8, 'R' as u8, 'R' as u8, 'O' as u8) {
            NotifyCommand::Error(read_name(core))
        } else if header_is(core, 'W' as u8, 'A' as u8, 'R' as u8, 'N' as u8) {
            NotifyCommand::Warning(read_name(core))
        } else if header_is(core, 'D' as u8, 'E' as u8, 'B' as u8, 'U' as u8) {
            NotifyCommand::Debug(read_name(core))
        } else {
            NotifyCommand::Undef
        }
    }

    /// Encodes the command into a fresh payload.
    pub fn to_core(&self) -> (r: PacketCore)
        ensures
            r@ == spec_notify_encode(self@),
    {
        let mut core: PacketCore = [0u8; 1024];
        match self {
            NotifyCommand::ShutUp(n) => {
                write_header(&mut core, 'S' as u8, 'H' as u8, 'U' as u8, 'T' as u8);
                write_opt_name(&mut core, n);
            },
            NotifyCommand::Error(n) => {
                write_header(&mut core, 'E' as u8, 'R' as u8, 'R' as u8, 'O' as u8);
                write_opt_name(&mut core, n);
            },
            NotifyCommand::Warning(n) => {
                write_header(&mut core, 'W' as u8, 'A' as u8, 'R' as u8, 'N' as u8);
                write_opt_name(&mut core, n);
            },
            NotifyCommand::Debug(n) => {
                write_header(&mut core, 'D' as u8, 'E' as u8, 'B' as u8, 'U' as u8);
                write_opt_name(&mut core, n);
            },
            NotifyCommand::Undef => {
                write_header(&mut core, 'W' as u8, 'A' as u8, 'R' as u8, 'N' as u8);
                let none: Option<String> = None;
                write_opt_name(&mut core, &none);
            },
        }
        proof {
            assert(core@ =~= spec_notify_encode(self@));
        }
        core
    }
}

/// An optional name that its field stores and returns unchanged: absent, or
/// clean characters that fit `NAME_SIZE` and are not empty (an empty name
/// decodes back to `None`).
pub open spec fn fits_name(n: Option<Seq<char>>) -> bool {
    match n {
        Some(s) => clean(s) && 0 < s.len() <= 100,
        None => true,
    }
}

/// The name field of an encoded named core decodes to the stored name.
proof fn lemma_named_core_name(h: Seq<u8>, n: Option<Seq<char>>)
    requires
        h.len() == 4,
        fits_name(n),
    ensures
        name_of(named_core(h, n)) == n,
{
    let core = named_core(h, n);
    assert(core.subrange(4, 104) =~= fitted(utf8_of(n), 100));
    match n {
        Some(s) => {
            lemma_field_store(s, 100);
            assert(field_chars(core, 4, 104) == s);
        },
        None => {
            lemma_field_store(Seq::<char>::empty(), 100);
            assert(utf8_of(n) =~= encode_utf8(Seq::<char>::empty()));
            assert(field_chars(core, 4, 104) =~= Seq::<char>::empty());
        },
    }
}

/// The header of a named core is the header it was written with.
proof fn lemma_named_core_header(h: Seq<u8>, n: Option<Seq<char>>)
    requires
        h.len() == 4,
    ensures
        named_core(h, n).subrange(0, 4) == h,
{
    assert(named_core(h, n).subrange(0, 4) =~= h);
}

/// Law: decoding an encoded notify command returns it unchanged, for every
/// command other than `Undef` whose name fits its field.
pub proof fn lemma_notify_round_trip(m: NotifyModel)
    requires
        !(m is Undef),
        fits_name(notify_name(m)),
    ensures
        spec_notify_decode(spec_notify_encode(m)) == m,
{
    let n = notify_name(m);
    let h = notify_hdr(m);
    assert(spec_notify_encode(m) == named_core(h, n));
    lemma_named_core_header(h, n);
    lemma_named_core_name(h, n);
}

/// The name a notify command carries.
pub open spec fn notify_name(m: NotifyModel) -> Option<Seq<char>> {
    match m {
        NotifyModel::ShutUp(n) => n,
        NotifyModel::Error(n) => n,
        NotifyModel::Warning(n) => n,
        NotifyModel::Debug(n) => n,
        NotifyModel::Undef => None,
    }
}

/// The header a notify command encodes to.
pub open spec fn notify_hdr(m: NotifyModel) -> Seq<u8> {
    match m {
        NotifyModel::ShutUp(_) => hdr('S' as u8, 'H' as u8, 'U' as u8, 'T' as u8),
        NotifyModel::Error(_) => hdr('E' as u8, 'R' as u8, 'R' as u8, 'O' as u8),
        NotifyModel::Warning(_) => hdr('W' as u8, 'A' as u8, 'R' as u8, 'N' as u8),
        NotifyModel::Debug(_) => hdr('D' as u8, 'E' as u8, 'B' as u8, 'U' as u8),
        NotifyModel::Undef => hdr('W' as u8, 'A' as u8, 'R' as u8, 'N' as u8),
    }
}

/// Law (truncation): storing a clean name longer than the name field
/// keeps its first `NAME_SIZE` bytes: decoding returns the truncated name,
/// and never a failure.
pub proof fn lemma_name_truncation(h: Seq<u8>, s: Seq<char>)
    requires
        h.len() == 4,
        clean(s),
        s.len() > 100,
    ensures
        name_of(named_core(h, Some(s))) == Some(s.subrange(0, 100)),
{
    let core = named_core(h, Some(s));
    assert(core.subrange(4, 104) =~= fitted(utf8_of(Some(s)), 100));
    lemma_field_store(s, 100);
    assert(is_ascii_chars(s)) by {
        assert forall|i: int| 0 <= i < s.len() implies '\0' <= #[trigger] s[i] <= '\u{7f}' by {
            assert(is_clean_char(s[i]));
            char_u32_cast(s[i], s[i] as u32);
            assert('\0' as u32 == 0);
            assert('\u{7f}' as u32 == 127);
        }
    }
    assert(field_chars(core, 4, 104) == s.subrange(0, 100));
}

/// Law: a payload whose header is none of the notify headers decodes to
/// `Undef`, whatever the rest of the payload holds.
pub proof fn lemma_notify_unknown_header(core: Seq<u8>)
    requires
        core.subrange(0, 4) != hdr('S' as u8, 'H' as u8, 'U' as u8, 'T' as u8),
        core.subrange(0, 4) != hdr('E' as u8, 'R' as u8, 'R' as u8, 'O' as u8),
        core.subrange(0, 4) != hdr('W' as u8, 'A' as u8, 'R' as u8, 'N' as u8),
        core.subrange(0, 4) != hdr('D' as u8, 'E' as u8, 'B' as u8, 'U' as u8),
    ensures
        spec_notify_decode(core) is Undef,
{
}

} // verus!

// ------------------------------------------------------------------
// Logger commands: WRIT, carrying a free text of up to 1020 bytes.
// ------------------------------------------------------------------

verus! {

/// A command understood by logger modules.
#[derive(Clone, Debug, Eq, PartialEq)]
pub enum LoggerCommand {
    Write(String),
    Undef,
}

/// The mathematical value of a [`LoggerCommand`].
pub enum LoggerModel {
    Write(Seq<char>),
    Undef,
}

impl View for LoggerCommand {
    type V = LoggerModel;

    open spec fn view(&self) -> LoggerModel {
        match self {
            LoggerCommand::Write(s) => LoggerModel::Write(s@),
            LoggerCommand::Undef => LoggerModel::Undef,
        }
    }
}

/// What any payload decodes to as a logger command.
pub open spec fn spec_logger_decode(core: Seq<u8>) -> LoggerModel {
    if core.subrange(0, 4) == hdr('W' as u8, 'R' as u8, 'I' as u8, 'T' as u8) {
        LoggerModel::Write(field_chars(core, 4, 1024))
    } else {
        LoggerModel::Undef
    }
}

/// The payload that encodes a logger command; `Undef` falls back to an empty
/// write.
pub open spec fn spec_logger_encode(m: LoggerModel) -> Seq<u8> {
    let h = hdr('W' as u8, 'R' as u8, 'I' as u8, 'T' as u8);
    match m {
        LoggerModel::Write(s) => h + fitted(encode_utf8(s), 1020),
        LoggerModel::Undef => h + zero_bytes(1020),
    }
}

impl LoggerCommand {
    /// Decodes a payload; an unknown header gives `Undef`.
    pub fn from_core(core: &PacketCore) -> (r: Self)
        ensures
            r@ == spec_logger_decode(core@),
    {
        if header_is(core, 'W' as u8, 'R' as u8, 'I' as u8, 'T' as u8) {
            LoggerCommand::Write(read_field(core, 4, 1024))
        } else {
            LoggerCommand::Undef
        }
    }

    /// Encodes the command into a fresh payload.
    pub fn to_core(&self) -> (r: PacketCore)
        ensures
            r@ == spec_logger_encode(self@),
    {
        let mut core: PacketCore = [0u8; 1024];
        write_header(&mut core, 'W' as u8, 'R' as u8, 'I' as u8, 'T' as u8);
        match self {
            LoggerCommand::Write(s) => {
                write_field(&mut core, 4, 1020, s.as_str().as_bytes());
            },
            LoggerCommand::Undef => {},
        }
        proof {
            assert(core@ =~= spec_logger_encode(self@));
        }
        core
    }
}

/// Law: decoding an encoded `Write` returns its text unchanged while the
/// text is clean and fits its 1020-byte field.
pub proof fn lemma_logger_round_trip(s: Seq<char>)
    requires
        clean(s),
        s.len() <= 1020,
    ensures
        spec_logger_decode(spec_logger_encode(LoggerModel::Write(s))) == LoggerModel::Write(s),
{
    let core = spec_logger_encode(LoggerModel::Write(s));
    assert(core.subrange(0, 4) =~= hdr('W' as u8, 'R' as u8, 'I' as u8, 'T' as u8));
    assert(core.subrange(4, 1024) =~= fitted(encode_utf8(s), 1020));
    lemma_field_store(s, 1020);
}

/// Law: a payload whose header is not `WRIT` decodes to `Undef`.
pub proof fn lemma_logger_unknown_header(core: Seq<u8>)
    requires
        core.subrange(0, 4) != hdr('W' as u8, 'R' as u8, 'I' as u8, 'T' as u8),
    ensures
        spec_logger_decode(core) is Undef,
{
}

} // verus!

// ------------------------------------------------------------------
// Watch commands: CHTA / TSTA / PRTA / TRRP, with an optional name and a
// resource of up to 920 bytes.
// ------------------------------------------------------------------

verus! {

/// A command understood by watcher modules.
#[derive(Clone, Debug, Eq, PartialEq)]
pub enum WatchCommand {
    ChangeTarget(Option<String>, String),
    TestTarget(Option<String>, String),
    PrintTarget(Option<String>),
    TryRepair(Option<String>, String),
    Undef,
}

/// The mathematical value of a [`WatchCommand`].
pub enum WatchModel {
    ChangeTarget(Option<Seq<char>>, Seq<char>),
    TestTarget(Option<Seq<char>>, Seq<char>),
    PrintTarget(Option<Seq<char>>),
    TryRepair(Option<Seq<char>>, Seq<char>),
    Undef,
}

impl View for WatchCommand {
    type V = WatchModel;

    open spec fn view(&self) -> WatchModel {
        match self {
            WatchCommand::ChangeTarget(n, r) => WatchModel::ChangeTarget(opt_view(*n), r@),
            WatchCommand::TestTarget(n, r) => WatchModel::TestTarget(opt_view(*n), r@),
            WatchCommand::PrintTarget(n) => WatchModel::PrintTarget(opt_view(*n)),
            WatchCommand::TryRepair(n, r) => WatchModel::TryRepair(opt_view(*n), r@),
            WatchCommand::Undef => WatchModel::Undef,
        }
    }
}

/// The resource field: offset 104 to the end of the payload.
pub open spec fn resource_of(core: Seq<u8>) -> Seq<char> {
    field_chars(core, 104, 1024)
}

/// What any payload decodes to as a watch command.
pub open spec fn spec_watch_decode(core: Seq<u8>) -> WatchModel {
    let name = name_of(core);
    let res = resource_of(core);
    let h = core.subrange(0, 4);
    if h == hdr('C' as u8, 'H' as u8, 'T' as u8, 'A' as u8) {
        WatchModel::ChangeTarget(name, res)
    } else if h == hdr('T' as u8, 'S' as u8, 'T' as u8, 'A' as u8) {
        WatchModel::TestTarget(name, res)
    } else if h == hdr('P' as u8, 'R' as u8, 'T' as u8, 'A' as u8) {
        WatchModel::PrintTarget(name)
    } else if h == hdr('T' as u8, 'R' as u8, 'R' as u8, 'P' as u8) {
        WatchModel::TryRepair(name, res)
    } else {
        WatchModel::Undef
    }
}

/// A header, the name field, and a 920-byte resource field.
pub open spec fn resource_core(h: Seq<u8>, name: Option<Seq<char>>, res: Seq<char>) -> Seq<u8> {
    h + fitted(utf8_of(name), 100) + fitted(encode_utf8(res), 920)
}

/// The payload that encodes a watch command; `Undef` falls back to an empty
/// print request.
pub open spec fn spec_watch_encode(m: WatchModel) -> Seq<u8> {
    match m {
        WatchModel::ChangeTarget(n, r) => resource_core(
            hdr('C' as u8, 'H' as u8, 'T' as u8, 'A' as u8),
            n,
            r,
        ),
        WatchModel::TestTarget(n, r) => resource_core(
            hdr('T' as u8, 'S' as u8, 'T' as u8, 'A' as u8),
            n,
            r,
        ),
        WatchModel::PrintTarget(n) => resource_core(
            hdr('P' as u8, 'R' as u8, 'T' as u8, 'A' as u8),
            n,
            Seq::<char>::empty(),
        ),
        WatchModel::TryRepair(n, r) => resource_core(
            hdr('T' as u8, 'R' as u8, 'R' as u8, 'P' as u8),
            n,
            r,
        ),
        WatchModel::Undef => resource_core(
            hdr('P' as u8, 'R' as u8, 'T' as u8, 'A' as u8),
            None,
            Seq::<char>::empty(),
        ),
    }
}

impl WatchCommand {
    /// Decodes a payload; an unknown header gives `Undef`.
    pub fn from_core(core: &PacketCore) -> (r: Self)
        ensures
            r@ == spec_watch_decode(core@),
    {
        if header_is(core, 'C' as u8, 'H' as u8, 'T' as u8, 'A' as u8) {
            WatchCommand::ChangeTarget(read_name(core), read_field(core, 104, 1024))
        } else if header_is(core, 'T' as u8, 'S' as u8, 'T' as u8, 'A' as u8) {
            WatchCommand::TestTarget(read_name(core), read_field(core, 104, 1024))
        } else if header_is(core, 'P' as u8, 'R' as u8, 'T' as u8, 'A' as u8) {
            WatchCommand::PrintTarget(read_name(core))
        } else if header_is(core, 'T' as u8, 'R' as u8, 'R' as u8, 'P' as u8) {
            WatchCommand::TryRepair(read_name(core), read_field(core, 104, 1024))
        } else {
            WatchCommand::Undef
        }
    }

    /// Encodes the command into a fresh payload.
    pub fn to_core(&self) -> (r: PacketCore)
        ensures
            r@ == spec_watch_encode(self@),
    {
        let mut core: PacketCore = [0u8; 1024];
        match self {
            WatchCommand::ChangeTarget(n, res) => {
                write_header(&mut core, 'C' as u8, 'H' as u8, 'T' as u8, 'A' as u8);
                write_opt_name(&mut core, n);
                write_field(&mut core, 104, 920, res.as_str().as_bytes());
            },
            WatchCommand::TestTarget(n, res) => {
                write_header(&mut core, 'T' as u8, 'S' as u8, 'T' as u8, 'A' as u8);
                write_opt_name(&mut core, n);
                write_field(&mut core, 104, 920, res.as_str().as_bytes());
            },
            WatchCommand::PrintTarget(n) => {
                write_header(&mut core, 'P' as u8, 'R' as u8, 'T' as u8, 'A' as u8);
                write_opt_name(&mut core, n);
            },
            WatchCommand::TryRepair(n, res) => {
                write_header(&mut core, 'T' as u8, 'R' as u8, 'R' as u8, 'P' as u8);
                write_opt_name(&mut core, n);
                write_field(&mut core, 104, 920, res.as_str().as_bytes());
            },
            WatchCommand::Undef => {
                write_header(&mut core, 'P' as u8, 'R' as u8, 'T' as u8, 'A' as u8);
            },
        }
        proof {
            assert(encode_utf8(Seq::<char>::empty()) =~= Seq::<u8>::empty());
            assert(core@ =~= spec_watch_encode(self@));
        }
        core
    }
}

/// A resource value that its 920-byte field stores and returns unchanged.
pub open spec fn fits_resource(r: Seq<char>) -> bool {
    clean(r) && r.len() <= 920
}

/// The resource field of an encoded resource core decodes to the stored
/// resource.
proof fn lemma_resource_core_fields(h: Seq<u8>, n: Option<Seq<char>>, res: Seq<char>)
    requires
        h.len() == 4,
        fits_name(n),
        fits_resource(res),
    ensures
        resource_core(h, n, res).subrange(0, 4) == h,
        name_of(resource_core(h, n, res)) == n,
        resource_of(resource_core(h, n, res)) == res,
{
    let core = resource_core(h, n, res);
    assert(core.subrange(0, 4) =~= h);
    assert(core.subrange(4, 104) =~= fitted(utf8_of(n), 100));
    assert(core.subrange(104, 1024) =~= fitted(encode_utf8(res), 920));
    match n {
        Some(s) => {
            lemma_field_store(s, 100);
        },
        None => {
            lemma_field_store(Seq::<char>::empty(), 100);
            assert(utf8_of(n) =~= encode_utf8(Seq::<char>::empty()));
            assert(field_chars(core, 4, 104) =~= Seq::<char>::empty());
        },
    }
    lemma_field_store(res, 920);
}

/// The resource a watch command carries; a print request carries none.
pub open spec fn watch_resource(m: WatchModel) -> Seq<char> {
    match m {
        WatchModel::ChangeTarget(_, r) => r,
        WatchModel::TestTarget(_, r) => r,
        WatchModel::PrintTarget(_) => Seq::<char>::empty(),
        WatchModel::TryRepair(_, r) => r,
        WatchModel::Undef => Seq::<char>::empty(),
    }
}

/// The name a watch command carries.
pub open spec fn watch_name(m: WatchModel) -> Option<Seq<char>> {
    match m {
        WatchModel::ChangeTarget(n, _) => n,
        WatchModel::TestTarget(n, _) => n,
        WatchModel::PrintTarget(n) => n,
        WatchModel::TryRepair(n, _) => n,
        WatchModel::Undef => None,
    }
}

/// Law: decoding an encoded watch command returns it unchanged, for every
/// command other than `Undef` whose name and resource fit their fields.
pub proof fn lemma_watch_round_trip(m: WatchModel)
    requires
        !(m is Undef),
        fits_name(watch_name(m)),
        fits_resource(watch_resource(m)),
    ensures
        spec_watch_decode(spec_watch_encode(m)) == m,
{
    match m {
        WatchModel::ChangeTarget(n, r) => {
            lemma_resource_core_fields(hdr('C' as u8, 'H' as u8, 'T' as u8, 'A' as u8), n, r);
        },
        WatchModel::TestTarget(n, r) => {
            lemma_resource_core_fields(hdr('T' as u8, 'S' as u8, 'T' as u8, 'A' as u8), n, r);
        },
        WatchModel::PrintTarget(n) => {
            lemma_resource_core_fields(
                hdr('P' as u8, 'R' as u8, 'T' as u8, 'A' as u8),
                n,
                Seq::<char>::empty(),
            );
        },
        WatchModel::TryRepair(n, r) => {
            lemma_resource_core_fields(hdr('T' as u8, 'R' as u8, 'R' as u8, 'P' as u8), n, r);
        },
        WatchModel::Undef => {},
    }
}

/// Law: a payload whose header is none of the watch headers decodes to
/// `Undef`, whatever the rest of the payload holds.
pub proof fn lemma_watch_unknown_header(core: Seq<u8>)
    requires
        core.subrange(0, 4) != hdr('C' as u8, 'H' as u8, 'T' as u8, 'A' as u8),
        core.subrange(0, 4) != hdr('T' as u8, 'S' as u8, 'T' as u8, 'A' as u8),
        core.subrange(0, 4) != hdr('P' as u8, 'R' as u8, 'T' as u8, 'A' as u8),
        core.subrange(0, 4) != hdr('T' as u8, 'R' as u8, 'R' as u8, 'P' as u8),
    ensures
        spec_watch_decode(core) is Undef,
{
}

} // verus!

// ------------------------------------------------------------------
// Backup commands: FIRE / CHTA / CHSR / HAHO / CHHO / CHHC / PIHO / PRNT.
// CHHO carries four raw address octets at offset 104; CHHC splits the
// post-name area into two 460-byte credential slots at offsets 104 and 564.
// ------------------------------------------------------------------

verus! {

/// A pair of credentials: a user and a password.
#[derive(Clone, Debug, Eq, PartialEq)]
pub struct HostCredentials(pub String, pub String);

impl View for HostCredentials {
    type V = (Seq<char>, Seq<char>);

    open spec fn view(&self) -> (Seq<char>, Seq<char>) {
        (self.0@, self.1@)
    }
}

/// A command understood by backup modules. Paths travel as strings.
#[derive(Clone, Debug, Eq, PartialEq)]
pub enum BackupCommand {
    Fire(Option<String>),
    ChangeTarget(Option<String>, String),
    ChangeSource(Option<String>, String),
    HasHostCapability(Option<String>),
    ChangeHost(Option<String>, [u8; 4]),
    ChangeHostCredentials(Option<String>, HostCredentials),
    PingHost(Option<String>),
    Print(Option<String>),
    Undef,
}

/// The mathematical value of a [`BackupCommand`].
pub enum BackupModel {
    Fire(Option<Seq<char>>),
    ChangeTarget(Option<Seq<char>>, Seq<char>),
    ChangeSource(Option<Seq<char>>, Seq<char>),
    HasHostCapability(Option<Seq<char>>),
    ChangeHost(Option<Seq<char>>, Seq<u8>),
    ChangeHostCredentials(Option<Seq<char>>, (Seq<char>, Seq<char>)),
    PingHost(Option<Seq<char>>),
    Print(Option<Seq<char>>),
    Undef,
}

impl View for BackupCommand {
    type V = BackupModel;

    open spec fn view(&self) -> BackupModel {
        match self {
            BackupCommand::Fire(n) => BackupModel::Fire(opt_view(*n)),
            BackupCommand::ChangeTarget(n, p) => BackupModel::ChangeTarget(opt_view(*n), p@),
            BackupCommand::ChangeSource(n, p) => BackupModel::ChangeSource(opt_view(*n), p@),
            BackupCommand::HasHostCapability(n) => BackupModel::HasHostCapability(opt_view(*n)),
            BackupCommand::ChangeHost(n, ip) => BackupModel::ChangeHost(opt_view(*n), ip@),
            BackupCommand::ChangeHostCredentials(n, c) => BackupModel::ChangeHostCredentials(
                opt_view(*n),
                c@,
            ),
            BackupCommand::PingHost(n) => BackupModel::PingHost(opt_view(*n)),
            BackupCommand::Print(n) => BackupModel::Print(opt_view(*n)),
            BackupCommand::Undef => BackupModel::Undef,
        }
    }
}

/// The four address octets at offset 104.
pub open spec fn ip_of(core: Seq<u8>) -> Seq<u8> {
    core.subrange(104, 108)
}

/// The two credential slots: offsets 104 and 564, 460 bytes each.
pub open spec fn creds_of(core: Seq<u8>) -> (Seq<char>, Seq<char>) {
    (field_chars(core, 104, 564), field_chars(core, 564, 1024))
}

/// What any payload decodes to as a backup command.
pub open spec fn spec_backup_decode(core: Seq<u8>) -> BackupModel {
    let name = name_of(core);
    let res = resource_of(core);
    let h = core.subrange(0, 4);
    if h == hdr('F' as u8, 'I' as u8, 'R' as u8, 'E' as u8) {
        BackupModel::Fire(name)
    } else if h == hdr('C' as u8, 'H' as u8, 'T' as u8, 'A' as u8) {
        BackupModel::ChangeTarget(name, res)
    } else if h == hdr('C' as u8, 'H' as u8, 'S' as u8, 'R' as u8) {
        BackupModel::ChangeSource(name, res)
    } else if h == hdr('H' as u8, 'A' as u8, 'H' as u8, 'O' as u8) {
        BackupModel::HasHostCapability(name)
    } else if h == hdr('C' as u8, 'H' as u8, 'H' as u8, 'O' as u8) {
        BackupModel::ChangeHost(name, ip_of(core))
    } else if h == hdr('C' as u8, 'H' as u8, 'H' as u8, 'C' as u8) {
        BackupModel::ChangeHostCredentials(name, creds_of(core))
    } else if h == hdr('P' as u8, 'I' as u8, 'H' as u8, 'O' as u8) {
        BackupModel::PingHost(name)
    } else if h == hdr('P' as u8, 'R' as u8, 'N' as u8, 'T' as u8) {
        BackupModel::Print(name)
    } else {
        BackupModel::Undef
    }
}

/// A header, the name field, four raw octets, and zeros to the end.
pub open spec fn ip_core(h: Seq<u8>, name: Option<Seq<char>>, ip: Seq<u8>) -> Seq<u8> {
    h + fitted(utf8_of(name), 100) + ip + zero_bytes(916)
}

/// A header, the name field, and the two credential slots.
pub open spec fn creds_core(h: Seq<u8>, name: Option<Seq<char>>, u: Seq<char>, p: Seq<char>) -> Seq<
    u8,
> {
    h + fitted(utf8_of(name), 100) + fitted(encode_utf8(u), 460) + fitted(encode_utf8(p), 460)
}

/// The payload that encodes a backup command; `Undef` falls back to an
/// empty print request.
pub open spec fn spec_backup_encode(m: BackupModel) -> Seq<u8> {
    match m {
        BackupModel::Fire(n) => named_core(hdr('F' as u8, 'I' as u8, 'R' as u8, 'E' as u8), n),
        BackupModel::ChangeTarget(n, p) => resource_core(
            hdr('C' as u8, 'H' as u8, 'T' as u8, 'A' as u8),
            n,
            p,
        ),
        BackupModel::ChangeSource(n, p) => resource_core(
            hdr('C' as u8, 'H' as u8, 'S' as u8, 'R' as u8),
            n,
            p,
        ),
        BackupModel::HasHostCapability(n) => named_core(
            hdr('H' as u8, 'A' as u8, 'H' as u8, 'O' as u8),
            n,
        ),
        BackupModel::ChangeHost(n, ip) => ip_core(
            hdr('C' as u8, 'H' as u8, 'H' as u8, 'O' as u8),
            n,
            ip,
        ),
        BackupModel::ChangeHostCredentials(n, c) => creds_core(
            hdr('C' as u8, 'H' as u8, 'H' as u8, 'C' as u8),
            n,
            c.0,
            c.1,
        ),
        BackupModel::PingHost(n) => named_core(hdr('P' as u8, 'I' as u8, 'H' as u8, 'O' as u8), n),
        BackupModel::Print(n) => named_core(hdr('P' as u8, 'R' as u8, 'N' as u8, 'T' as u8), n),
        BackupModel::Undef => named_core(hdr('P' as u8, 'R' as u8, 'N' as u8, 'T' as u8), None),
    }
}

impl BackupCommand {
    /// Decodes a payload; an unknown header gives `Undef`.
    pub fn from_core(core: &PacketCore) -> (r: Self)
        ensures
            r@ == spec_backup_decode(core@),
    {
        if header_is(core, 'F' as u8, 'I' as u8, 'R' as u8, 'E' as u8) {
            BackupCommand::Fire(read_name(core))
        } else if header_is(core, 'C' as u8, 'H' as u8, 'T' as u8, 'A' as u8) {
            BackupCommand::ChangeTarget(read_name(core), read_field(core, 104, 1024))
        } else if header_is(core, 'C' as u8, 'H' as u8, 'S' as u8, 'R' as u8) {
            BackupCommand::ChangeSource(read_name(core), read_field(core, 104, 1024))
        } else if header_is(core, 'H' as u8, 'A' as u8, 'H' as u8, 'O' as u8) {
            BackupCommand::HasHostCapability(read_name(core))
        } else if header_is(core, 'C' as u8, 'H' as u8, 'H' as u8, 'O' as u8) {
            let ip: [u8; 4] = [core[104], core[105], core[106], core[107]];
            proof {
                assert(ip@ =~= ip_of(core@));
            }
            BackupCommand::ChangeHost(read_name(core), ip)
        } else if header_is(core, 'C' as u8, 'H' as u8, 'H' as u8, 'C' as u8) {
            BackupCommand::ChangeHostCredentials(
                read_name(core),
                HostCredentials(read_field(core, 104, 564), read_field(core, 564, 1024)),
            )
        } else if header_is(core, 'P' as u8, 'I' as u8, 'H' as u8, 'O' as u8) {
            BackupCommand::PingHost(read_name(core))
        } else if header_is(core, 'P' as u8, 'R' as u8, 'N' as u8, 'T' as u8) {
            BackupCommand::Print(read_name(core))
        } else {
            BackupCommand::Undef
        }
    }

    /// Encodes the command into a fresh payload.
    pub fn to_core(&self) -> (r: PacketCore)
        ensures
            r@ == spec_backup_encode(self@),
    {
        let mut core: PacketCore = [0u8; 1024];
        match self {
            BackupCommand::Fire(n) => {
                write_header(&mut core, 'F' as u8, 'I' as u8, 'R' as u8, 'E' as u8);
                write_opt_name(&mut core, n);
            },
            BackupCommand::ChangeTarget(n, p) => {
                write_header(&mut core, 'C' as u8, 'H' as u8, 'T' as u8, 'A' as u8);
                write_opt_name(&mut core, n);
                write_field(&mut core, 104, 920, p.as_str().as_bytes());
            },
            BackupCommand::ChangeSource(n, p) => {
                write_header(&mut core, 'C' as u8, 'H' as u8, 'S' as u8, 'R' as u8);
                write_opt_name(&mut core, n);
                write_field(&mut core, 104, 920, p.as_str().as_bytes());
            },
            BackupCommand::HasHostCapability(n) => {
                write_header(&mut core, 'H' as u8, 'A' as u8, 'H' as u8, 'O' as u8);
                write_opt_name(&mut core, n);
            },
            BackupCommand::ChangeHost(n, ip) => {
                write_header(&mut core, 'C' as u8, 'H' as u8, 'H' as u8, 'O' as u8);
                write_opt_name(&mut core, n);
                core[104] = ip[0];
                core[105] = ip[1];
                core[106] = ip[2];
                core[107] = ip[3];
            },
            BackupCommand::ChangeHostCredentials(n, c) => {
                write_header(&mut core, 'C' as u8, 'H' as u8, 'H' as u8, 'C' as u8);
                write_opt_name(&mut core, n);
                write_field(&mut core, 104, 460, c.0.as_str().as_bytes());
                write_field(&mut core, 564, 460, c.1.as_str().as_bytes());
            },
            BackupCommand::PingHost(n) => {
                write_header(&mut core, 'P' as u8, 'I' as u8, 'H' as u8, 'O' as u8);
                write_opt_name(&mut core, n);
            },
            BackupCommand::Print(n) => {
                write_header(&mut core, 'P' as u8, 'R' as u8, 'N' as u8, 'T' as u8);
                write_opt_name(&mut core, n);
            },
            BackupCommand::Undef => {
                write_header(&mut core, 'P' as u8, 'R' as u8, 'N' as u8, 'T' as u8);
            },
        }
        proof {
            assert(core@ =~= spec_backup_encode(self@));
        }
        core
    }
}

/// A credential value that its 460-byte slot stores and returns unchanged.
pub open spec fn fits_credential(c: Seq<char>) -> bool {
    clean(c) && c.len() <= 460
}

/// The fields of an encoded ip core decode to what was stored.
proof fn lemma_ip_core_fields(h: Seq<u8>, n: Option<Seq<char>>, ip: Seq<u8>)
    requires
        h.len() == 4,
        ip.len() == 4,
        fits_name(n),
    ensures
        ip_core(h, n, ip).subrange(0, 4) == h,
        name_of(ip_core(h, n, ip)) == n,
        ip_of(ip_core(h, n, ip)) == ip,
{
    let core = ip_core(h, n, ip);
    assert(core.subrange(0, 4) =~= h);
    assert(core.subrange(4, 104) =~= fitted(utf8_of(n), 100));
    assert(core.subrange(104, 108) =~= ip);
    match n {
        Some(s) => {
            lemma_field_store(s, 100);
        },
        None => {
            lemma_field_store(Seq::<char>::empty(), 100);
            assert(utf8_of(n) =~= encode_utf8(Seq::<char>::empty()));
            assert(field_chars(core, 4, 104) =~= Seq::<char>::empty());
        },
    }
}

/// The fields of an encoded credentials core decode to what was stored.
proof fn lemma_creds_core_fields(h: Seq<u8>, n: Option<Seq<char>>, u: Seq<char>, p: Seq<char>)
    requires
        h.len() == 4,
        fits_name(n),
        fits_credential(u),
        fits_credential(p),
    ensures
        creds_core(h, n, u, p).subrange(0, 4) == h,
        name_of(creds_core(h, n, u, p)) == n,
        creds_of(creds_core(h, n, u, p)) == (u, p),
{
    let core = creds_core(h, n, u, p);
    assert(core.subrange(0, 4) =~= h);
    assert(core.subrange(4, 104) =~= fitted(utf8_of(n), 100));
    assert(core.subrange(104, 564) =~= fitted(encode_utf8(u), 460));
    assert(core.subrange(564, 1024) =~= fitted(encode_utf8(p), 460));
    match n {
        Some(s) => {
            lemma_field_store(s, 100);
        },
        None => {
            lemma_field_store(Seq::<char>::empty(), 100);
            assert(utf8_of(n) =~= encode_utf8(Seq::<char>::empty()));
            assert(field_chars(core, 4, 104) =~= Seq::<char>::empty());
        },
    }
    lemma_field_store(u, 460);
    lemma_field_store(p, 460);
}

/// The name a backup command carries.
pub open spec fn backup_name(m: BackupModel) -> Option<Seq<char>> {
    match m {
        BackupModel::Fire(n) => n,
        BackupModel::ChangeTarget(n, _) => n,
        BackupModel::ChangeSource(n, _) => n,
        BackupModel::HasHostCapability(n) => n,
        BackupModel::ChangeHost(n, _) => n,
        BackupModel::ChangeHostCredentials(n, _) => n,
        BackupModel::PingHost(n) => n,
        BackupModel::Print(n) => n,
        BackupModel::Undef => None,
    }
}

/// Whether every payload field of a backup command fits its field width:
/// names up to 100 bytes, paths up to 920, credentials up to 460 each, and
/// an address of exactly four octets.
pub open spec fn backup_fits(m: BackupModel) -> bool {
    fits_name(backup_name(m)) && match m {
        BackupModel::ChangeTarget(_, p) => fits_resource(p),
        BackupModel::ChangeSource(_, p) => fits_resource(p),
        BackupModel::ChangeHost(_, ip) => ip.len() == 4,
        BackupModel::ChangeHostCredentials(_, c) => fits_credential(c.0) && fits_credential(c.1),
        _ => true,
    }
}

/// Law: decoding an encoded backup command returns it unchanged, for every
/// command other than `Undef` whose fields fit their widths.
pub proof fn lemma_backup_round_trip(m: BackupModel)
    requires
        !(m is Undef),
        backup_fits(m),
    ensures
        spec_backup_decode(spec_backup_encode(m)) == m,
{
    match m {
        BackupModel::Fire(n) => {
            lemma_named_core_header(hdr('F' as u8, 'I' as u8, 'R' as u8, 'E' as u8), n);
            lemma_named_core_name(hdr('F' as u8, 'I' as u8, 'R' as u8, 'E' as u8), n);
        },
        BackupModel::ChangeTarget(n, p) => {
            lemma_resource_core_fields(hdr('C' as u8, 'H' as u8, 'T' as u8, 'A' as u8), n, p);
        },
        BackupModel::ChangeSource(n, p) => {
            lemma_resource_core_fields(hdr('C' as u8, 'H' as u8, 'S' as u8, 'R' as u8), n, p);
        },
        BackupModel::HasHostCapability(n) => {
            lemma_named_core_header(hdr('H' as u8, 'A' as u8, 'H' as u8, 'O' as u8), n);
            lemma_named_core_name(hdr('H' as u8, 'A' as u8, 'H' as u8, 'O' as u8), n);
        },
        BackupModel::ChangeHost(n, ip) => {
            lemma_ip_core_fields(hdr('C' as u8, 'H' as u8, 'H' as u8, 'O' as u8), n, ip);
        },
        BackupModel::ChangeHostCredentials(n, c) => {
            lemma_creds_core_fields(hdr('C' as u8, 'H' as u8, 'H' as u8, 'C' as u8), n, c.0, c.1);
        },
        BackupModel::PingHost(n) => {
            lemma_named_core_header(hdr('P' as u8, 'I' as u8, 'H' as u8, 'O' as u8), n);
            lemma_named_core_name(hdr('P' as u8, 'I' as u8, 'H' as u8, 'O' as u8), n);
        },
        BackupModel::Print(n) => {
            lemma_named_core_header(hdr('P' as u8, 'R' as u8, 'N' as u8, 'T' as u8), n);
            lemma_named_core_name(hdr('P' as u8, 'R' as u8, 'N' as u8, 'T' as u8), n);
        },
        BackupModel::Undef => {},
    }
}

/// Law: a payload whose header is none of the backup headers decodes to
/// `Undef`, whatever the rest of the payload holds.
pub proof fn lemma_backup_unknown_header(core: Seq<u8>)
    requires
        core.subrange(0, 4) != hdr('F' as u8, 'I' as u8, 'R' as u8, 'E' as u8),
        core.subrange(0, 4) != hdr('C' as u8, 'H' as u8, 'T' as u8, 'A' as u8),
        core.subrange(0, 4) != hdr('C' as u8, 'H' as u8, 'S' as u8, 'R' as u8),
        core.subrange(0, 4) != hdr('H' as u8, 'A' as u8, 'H' as u8, 'O' as u8),
        core.subrange(0, 4) != hdr('C' as u8, 'H' as u8, 'H' as u8, 'O' as u8),
        core.subrange(0, 4) != hdr('C' as u8, 'H' as u8, 'H' as u8, 'C' as u8),
        core.subrange(0, 4) != hdr('P' as u8, 'I' as u8, 'H' as u8, 'O' as u8),
        core.subrange(0, 4) != hdr('P' as u8, 'R' as u8, 'N' as u8, 'T' as u8),
    ensures
        spec_backup_decode(core) is Undef,
{
}

} // verus!

// ------------------------------------------------------------------
// Packets, notifications, and the alive protocol.
// ------------------------------------------------------------------

verus! {

/// An error raised while reading a packet.
#[derive(Debug, Clone)]
pub struct PacketError(String);

impl View for PacketError {
    type V = Seq<char>;

    closed spec fn view(&self) -> Seq<char> {
        self.0@
    }
}

impl PacketError {
    pub fn new(m: &str) -> (r: Self)
        ensures
            r@ == m@,
    {
        PacketError(m.to_owned())
    }

    /// The error message.
    pub fn message(&self) -> (r: &str)
        ensures
            r@ == self@,
    {
        self.0.as_str()
    }
}

pub type PacketResult<T> = Result<T, PacketError>;

/// A typed packet: a tag and, for most tags, a 1024-byte payload.
#[derive(Copy, Clone, Debug, PartialEq, Eq)]
pub enum Packet {
    NotifyGood(PacketCore),
    NotifyWarn(PacketCore),
    NotifyErr(PacketCore),
    NotifyCom(PacketCore),
    WatchReportGood(PacketCore),
    WatchReportWarn(PacketCore),
    WatchReportFail(PacketCore),
    WatchHold,
    WatchCom(PacketCore),
    BackupCom(PacketCore),
    LoggerCom(PacketCore),
    Stop(PacketCore),
    Alive(PacketCore),
    Terminate,
}

/// The payload of a packet; payload-free packets read as all zeros.
pub open spec fn core_of(p: Packet) -> Seq<u8> {
    match p {
        Packet::NotifyGood(c) => c@,
        Packet::NotifyWarn(c) => c@,
        Packet::NotifyErr(c) => c@,
        Packet::NotifyCom(c) => c@,
        Packet::WatchReportGood(c) => c@,
        Packet::WatchReportWarn(c) => c@,
        Packet::WatchReportFail(c) => c@,
        Packet::WatchHold => zero_bytes(1024),
        Packet::WatchCom(c) => c@,
        Packet::BackupCom(c) => c@,
        Packet::LoggerCom(c) => c@,
        Packet::Stop(c) => c@,
        Packet::Terminate => zero_bytes(1024),
        Packet::Alive(c) => c@,
    }
}

/// A notification payload: message, provider and stage, each in one third
/// of the payload (341 bytes), with the final byte left zero.
pub open spec fn notif_core(m: Seq<char>, p: Seq<char>, s: Seq<char>) -> Seq<u8> {
    fitted(encode_utf8(m), 341) + fitted(encode_utf8(p), 341) + fitted(encode_utf8(s), 341)
        + zero_bytes(1)
}

/// An alive payload: the 5 bytes `ALIVE`, then the module name.
pub open spec fn alive_core(name: Seq<char>) -> Seq<u8> {
    seq!['A' as u8, 'L' as u8, 'I' as u8, 'V' as u8, 'E' as u8] + fitted(encode_utf8(name), 1019)
}

/// Builds the three-slot notification payload.
fn mk_notif_core(message: &str, provider: &str, stage: &str) -> (r: PacketCore)
    ensures
        r@ == notif_core(message@, provider@, stage@),
{
    let mut core: PacketCore = [0u8; 1024];
    write_field(&mut core, 0, 341, message.as_bytes());
    write_field(&mut core, 341, 341, provider.as_bytes());
    write_field(&mut core, 682, 341, stage.as_bytes());
    proof {
        assert(core@ =~= notif_core(message@, provider@, stage@));
    }
    core
}

/// Builds a payload holding `data`, truncated to the payload size.
fn mk_bytes_core(data: &[u8]) -> (r: PacketCore)
    ensures
        r@ == fitted(data@, 1024),
{
    let mut core: PacketCore = [0u8; 1024];
    write_field(&mut core, 0, 1024, data);
    proof {
        assert(core@ =~= fitted(data@, 1024));
    }
    core
}

impl Packet {
    /// A good-news notification.
    pub fn new_ng(message: &str, provider: &str, stage: &str) -> (r: Self)
        ensures
            r matches Packet::NotifyGood(c) && c@ == notif_core(message@, provider@, stage@),
    {
        Packet::NotifyGood(mk_notif_core(message, provider, stage))
    }

    /// A warning notification.
    pub fn new_nw(message: &str, provider: &str, stage: &str) -> (r: Self)
        ensures
            r matches Packet::NotifyWarn(c) && c@ == notif_core(message@, provider@, stage@),
    {
        Packet::NotifyWarn(mk_notif_core(message, provider, stage))
    }

    /// An error notification.
    pub fn new_ne(message: &str, provider: &str, stage: &str) -> (r: Self)
        ensures
            r matches Packet::NotifyErr(c) && c@ == notif_core(message@, provider@, stage@),
    {
        Packet::NotifyErr(mk_notif_core(message, provider, stage))
    }

    /// A notify command packet around raw payload bytes.
    pub fn new_nc(data: &[u8]) -> (r: Self)
        ensures
            r matches Packet::NotifyCom(c) && c@ == fitted(data@, 1024),
    {
        Packet::NotifyCom(mk_bytes_core(data))
    }

    /// An empty good watch report.
    pub fn new_wrg() -> (r: Self)
        ensures
            r matches Packet::WatchReportGood(c) && c@ == zero_bytes(1024),
    {
        let core: PacketCore = [0u8; 1024];
        proof {
            assert(core@ =~= zero_bytes(1024));
        }
        Packet::WatchReportGood(core)
    }

    /// A warning watch report around raw payload bytes.
    pub fn new_wrw(data: &[u8]) -> (r: Self)
        ensures
            r matches Packet::WatchReportWarn(c) && c@ == fitted(data@, 1024),
    {
        Packet::WatchReportWarn(mk_bytes_core(data))
    }

    /// A failure watch report around raw payload bytes.
    pub fn new_wrf(data: &[u8]) -> (r: Self)
        ensures
            r matches Packet::WatchReportFail(c) && c@ == fitted(data@, 1024),
    {
        Packet::WatchReportFail(mk_bytes_core(data))
    }

    /// A hold request; it carries no payload.
    pub fn new_wh() -> (r: Self)
        ensures
            r is WatchHold,
    {
        Packet::WatchHold
    }

    /// A watch command packet around raw payload bytes.
    pub fn new_wc(data: &[u8]) -> (r: Self)
        ensures
            r matches Packet::WatchCom(c) && c@ == fitted(data@, 1024),
    {
        Packet::WatchCom(mk_bytes_core(data))
    }

    /// A backup command packet around raw payload bytes.
    pub fn new_bc(data: &[u8]) -> (r: Self)
        ensures
            r matches Packet::BackupCom(c) && c@ == fitted(data@, 1024),
    {
        Packet::BackupCom(mk_bytes_core(data))
    }

    /// A logger command packet around raw payload bytes.
    pub fn new_lc(data: &[u8]) -> (r: Self)
        ensures
            r matches Packet::LoggerCom(c) && c@ == fitted(data@, 1024),
    {
        Packet::LoggerCom(mk_bytes_core(data))
    }

    /// A stop request for the named module; the name starts at offset 0.
    pub fn new_stop(name: &str) -> (r: Self)
        ensures
            r matches Packet::Stop(c) && c@ == fitted(name.spec_bytes(), 1024),
    {
        let mut core: PacketCore = [0u8; 1024];
        write_field(&mut core, 0, 1024, name.as_bytes());
        proof {
            assert(core@ =~= fitted(name.spec_bytes(), 1024));
        }
        Packet::Stop(core)
    }

    /// The terminate request; it carries no payload.
    pub fn new_term() -> (r: Self)
        ensures
            r is Terminate,
    {
        Packet::Terminate
    }

    /// An alive signal from the named module.
    pub fn new_alive(name: &str) -> (r: Self)
        ensures
            r matches Packet::Alive(c) && c@ == alive_core(name@),
    {
        let mut core: PacketCore = [0u8; 1024];
        core[0] = 'A' as u8;
        core[1] = 'L' as u8;
        core[2] = 'I' as u8;
        core[3] = 'V' as u8;
        core[4] = 'E' as u8;
        write_field(&mut core, 5, 1019, name.as_bytes());
        proof {
            assert(core@ =~= alive_core(name@));
        }
        Packet::Alive(core)
    }

    /// The payload of the packet; payload-free packets give all zeros.
    pub fn get_core(&self) -> (r: PacketCore)
        ensures
            r@ == core_of(*self),
    {
        match self {
            Packet::NotifyGood(e) => *e,
            Packet::NotifyWarn(e) => *e,
            Packet::NotifyErr(e) => *e,
            Packet::NotifyCom(e) => *e,
            Packet::WatchReportGood(e) => *e,
            Packet::WatchReportWarn(e) => *e,
            Packet::WatchReportFail(e) => *e,
            Packet::WatchHold => {
                let core: PacketCore = [0u8; 1024];
                proof {
                    assert(core@ =~= zero_bytes(1024));
                }
                core
            },
            Packet::WatchCom(e) => *e,
            Packet::BackupCom(e) => *e,
            Packet::LoggerCom(e) => *e,
            Packet::Stop(e) => *e,
            Packet::Terminate => {
                let core: PacketCore = [0u8; 1024];
                proof {
                    assert(core@ =~= zero_bytes(1024));
                }
                core
            },
            Packet::Alive(e) => *e,
        }
    }
}

/// Returns the module name carried by an alive packet, and an error for
/// every other packet.
pub fn parse_alive(packet: Packet) -> (r: PacketResult<String>)
    ensures
        match packet {
            Packet::Alive(c) => r matches Ok(s) && s@ == field_chars(c@, 5, 1024),
            _ => r matches Err(e) && e@ == "Not an ALIVE packet"@,
        },
{
    match packet {
        Packet::Alive(core) => Ok(read_field(&core, 5, 1024)),
        _ => Err(PacketError::new("Not an ALIVE packet")),
    }
}

/// Law: the name of an alive packet built from a clean name of at most 1019
/// bytes parses back unchanged.
pub proof fn lemma_alive_round_trip(name: Seq<char>)
    requires
        clean(name),
        name.len() <= 1019,
    ensures
        field_chars(alive_core(name), 5, 1024) == name,
{
    assert(alive_core(name).subrange(5, 1024) =~= fitted(encode_utf8(name), 1019));
    lemma_field_store(name, 1019);
}

/// The three fields of a notification, read from a packet.
pub struct Notification {
    pub message: String,
    pub provider: String,
    pub stage: String,
    pub good: bool,
}

impl Notification {
    /// Renders the notification; a packet that was no notification renders
    /// as a fixed complaint.
    pub fn to_string(&self) -> (r: String)
        ensures
            self.good ==> r@ == self.provider@ + ":"@ + self.message@ + " at stage "@
                + self.stage@,
            !self.good ==> r@ == "Wrong Notification Format"@,
    {
        if self.good {
            let mut r = self.provider.clone();
            r.append(":");
            r.append(self.message.as_str());
            r.append(" at stage ");
            r.append(self.stage.as_str());
            r
        } else {
            "Wrong Notification Format".to_owned()
        }
    }

    /// Splits a notification packet into its three fields; any other packet
    /// gives empty fields and `good == false`.
    pub fn from_packet(item: Packet) -> (r: Self)
        ensures
            match item {
                Packet::NotifyGood(c) => r.good && notification_fields_of(r, c@),
                Packet::NotifyWarn(c) => r.good && notification_fields_of(r, c@),
                Packet::NotifyErr(c) => r.good && notification_fields_of(r, c@),
                _ => !r.good && r.message@.len() == 0 && r.provider@.len() == 0 && r.stage@.len()
                    == 0,
            },
    {
        match item {
            Packet::NotifyGood(core) => Self::untrim(&core),
            Packet::NotifyWarn(core) => Self::untrim(&core),
            Packet::NotifyErr(core) => Self::untrim(&core),
            _ => Notification {
                message: String::new(),
                stage: String::new(),
                provider: String::new(),
                good: false,
            },
        }
    }

    /// Reads the three 341-byte slots of a notification payload.
    fn untrim(core: &PacketCore) -> (r: Self)
        ensures
            r.good,
            notification_fields_of(r, core@),
    {
        Notification {
            message: read_field(core, 0, 341),
            provider: read_field(core, 341, 682),
            stage: read_field(core, 682, 1023),
            good: true,
        }
    }
}

/// The three fields of a notification are the three thirds of its payload.
pub open spec fn notification_fields_of(n: Notification, core: Seq<u8>) -> bool {
    &&& n.message@ == field_chars(core, 0, 341)
    &&& n.provider@ == field_chars(core, 341, 682)
    &&& n.stage@ == field_chars(core, 682, 1023)
}

/// Law: the three fields of a notification payload built from clean strings
/// of at most 341 bytes each read back unchanged.
pub proof fn lemma_notification_round_trip(m: Seq<char>, p: Seq<char>, s: Seq<char>)
    requires
        clean(m) && m.len() <= 341,
        clean(p) && p.len() <= 341,
        clean(s) && s.len() <= 341,
    ensures
        field_chars(notif_core(m, p, s), 0, 341) == m,
        field_chars(notif_core(m, p, s), 341, 682) == p,
        field_chars(notif_core(m, p, s), 682, 1023) == s,
{
    let core = notif_core(m, p, s);
    assert(core.subrange(0, 341) =~= fitted(encode_utf8(m), 341));
    assert(core.subrange(341, 682) =~= fitted(encode_utf8(p), 341));
    assert(core.subrange(682, 1023) =~= fitted(encode_utf8(s), 341));
    lemma_field_store(m, 341);
    lemma_field_store(p, 341);
    lemma_field_store(s, 341);
}

} // verus!

// ------------------------------------------------------------------
// Packet tags, for connection filters.
// ------------------------------------------------------------------

verus! {

/// The tag of a packet, without its payload.
#[derive(Clone, Copy, Debug, PartialEq, Eq, Structural)]
pub enum PacketTag {
    NotifyGood,
    NotifyWarn,
    NotifyErr,
    NotifyCom,
    WatchReportGood,
    WatchReportWarn,
    WatchReportFail,
    WatchHold,
    WatchCom,
    BackupCom,
    LoggerCom,
    Stop,
    Alive,
    Terminate,
}

/// The tag of a packet.
pub open spec fn tag_of(p: Packet) -> PacketTag {
    match p {
        Packet::NotifyGood(_) => PacketTag::NotifyGood,
        Packet::NotifyWarn(_) => PacketTag::NotifyWarn,
        Packet::NotifyErr(_) => PacketTag::NotifyErr,
        Packet::NotifyCom(_) => PacketTag::NotifyCom,
        Packet::WatchReportGood(_) => PacketTag::WatchReportGood,
        Packet::WatchReportWarn(_) => PacketTag::WatchReportWarn,
        Packet::WatchReportFail(_) => PacketTag::WatchReportFail,
        Packet::WatchHold => PacketTag::WatchHold,
        Packet::WatchCom(_) => PacketTag::WatchCom,
        Packet::BackupCom(_) => PacketTag::BackupCom,
        Packet::LoggerCom(_) => PacketTag::LoggerCom,
        Packet::Stop(_) => PacketTag::Stop,
        Packet::Terminate => PacketTag::Terminate,
        Packet::Alive(_) => PacketTag::Alive,
    }
}

impl Packet {
    /// The tag of the packet.
    pub fn tag(&self) -> (r: PacketTag)
        ensures
            r == tag_of(*self),
    {
        match self {
            Packet::NotifyGood(_) => PacketTag::NotifyGood,
            Packet::NotifyWarn(_) => PacketTag::NotifyWarn,
            Packet::NotifyErr(_) => PacketTag::NotifyErr,
            Packet::NotifyCom(_) => PacketTag::NotifyCom,
            Packet::WatchReportGood(_) => PacketTag::WatchReportGood,
            Packet::WatchReportWarn(_) => PacketTag::WatchReportWarn,
            Packet::WatchReportFail(_) => PacketTag::WatchReportFail,
            Packet::WatchHold => PacketTag::WatchHold,
            Packet::WatchCom(_) => PacketTag::WatchCom,
            Packet::BackupCom(_) => PacketTag::BackupCom,
            Packet::LoggerCom(_) => PacketTag::LoggerCom,
            Packet::Stop(_) => PacketTag::Stop,
            Packet::Terminate => PacketTag::Terminate,
            Packet::Alive(_) => PacketTag::Alive,
        }
    }
}

} // verus!