//! The module manager's configuration: which modules to load, each with an
//! optional cron-like schedule.
//!
//! A schedule carries an hour field and a minute field; each is either the
//! wildcard `*`, which matches every value, or a decimal literal, which
//! matches exactly that value. A schedule fires when both fields match the
//! current local time.

use vstd::prelude::*;
use vstd::string::StrSliceExecFns;
use crate::module::ModError;
use crate::module::ModResult;

verus! {

/// A decimal digit.
pub open spec fn is_dec_digit(c: char) -> bool {
    48 <= (c as u32) && (c as u32) <= 57
}

/// A non-empty, all-digit string.
pub open spec fn is_dec(s: Seq<char>) -> bool {
    s.len() > 0 && forall|i: int| 0 <= i < s.len() ==> is_dec_digit(#[trigger] s[i])
}

/// The value of a digit string, most significant digit first.
pub open spec fn dec_value(s: Seq<char>) -> int
    decreases s.len(),
{
    if s.len() == 0 {
        0
    } else {
        dec_value(s.drop_last()) * 10 + (s.last() as u32 - 48)
    }
}

/// The value of a digit string is at least the value of any of its
/// prefixes.
proof fn lemma_dec_value_prefix(s: Seq<char>, k: int)
    requires
        forall|i: int| 0 <= i < s.len() ==> is_dec_digit(#[trigger] s[i]),
        0 <= k <= s.len(),
    ensures
        dec_value(s) >= dec_value(s.subrange(0, k)),
        dec_value(s) >= 0,
    decreases s.len() - k,
{
    if k == s.len() {
        assert(s.subrange(0, k) =~= s);
        lemma_dec_value_nonneg(s);
    } else {
        lemma_dec_value_prefix(s, k + 1);
        let p = s.subrange(0, k + 1);
        assert(p.drop_last() =~= s.subrange(0, k));
        assert(dec_value(p) == dec_value(s.subrange(0, k)) * 10 + (s[k] as u32 - 48));
        assert(dec_value(s.subrange(0, k)) >= 0) by {
            lemma_dec_value_nonneg(s.subrange(0, k));
        }
    }
}

/// The value of an all-digit string is not negative.
proof fn lemma_dec_value_nonneg(s: Seq<char>)
    requires
        forall|i: int| 0 <= i < s.len() ==> is_dec_digit(#[trigger] s[i]),
    ensures
        dec_value(s) >= 0,
    decreases s.len(),
{
    if s.len() > 0 {
        assert(s.drop_last() =~= s.subrange(0, s.len() - 1));
        lemma_dec_value_nonneg(s.drop_last());
    }
}

/// Parses a decimal literal. Returns its value exactly when the string is
/// non-empty, holds only digits, and its value fits a `u64`.
pub fn parse_u64(s: &str) -> (r: Option<u64>)
    ensures
        r is Some <==> is_dec(s@) && dec_value(s@) <= u64::MAX,
        r matches Some(v) ==> v == dec_value(s@),
{
    let n = s.unicode_len();
    if n == 0 {
        return None;
    }
    let mut acc: u64 = 0;
    let mut i: usize = 0;
    while i < n
        invariant
            0 < n == s@.len(),
            i <= n,
            forall|j: int| 0 <= j < i ==> is_dec_digit(#[trigger] s@[j]),
            acc == dec_value(s@.subrange(0, i as int)),
        decreases n - i,
    {
        let c = s.get_char(i);
        let code = c as u32;
        if code < 48 || code > 57 {
            return None;
        }
        let d = (code - 48) as u64;
        proof {
            assert(s@.subrange(0, i + 1).drop_last() =~= s@.subrange(0, i as int));
        }
        let step = match acc.checked_mul(10) {
            Some(x) => x.checked_add(d),
            None => None,
        };
        match step {
            Some(x) => {
                acc = x;
            },
            None => {
                proof {
                    if is_dec(s@) {
                        assert(dec_value(s@.subrange(0, i + 1)) > u64::MAX);
                        lemma_dec_value_prefix(s@, i + 1);
                    }
                }
                return None;
            },
        }
        i = i + 1;
    }
    proof {
        assert(s@.subrange(0, n as int) =~= s@);
    }
    Some(acc)
}

/// A cron-like schedule: an hour field and a minute field, each a decimal
/// literal or the wildcard `*`.
#[derive(Debug, Clone)]
pub struct Whence {
    pub hour: String,
    pub min: String,
}

/// The current local time, as the daemon loop samples it: the hour and
/// minute of the local clock and a stamp that identifies the minute.
#[derive(Debug, Clone, Copy)]
pub struct LocalTime {
    /// A value that is distinct for distinct minutes of the timeline.
    pub minute_stamp: u64,
    /// The hour of the local clock, 0 to 23.
    pub hour: u64,
    /// The minute of the local clock, 0 to 59.
    pub min: u64,
}

/// Whether one schedule field matches a value: the wildcard matches
/// everything, a digit literal matches its own value, and anything else is
/// no valid field.
pub open spec fn field_match(f: Seq<char>, v: u64) -> Option<bool> {
    if f == "*"@ {
        Some(true)
    } else if is_dec(f) && dec_value(f) <= u64::MAX {
        Some(dec_value(f) == v)
    } else {
        None
    }
}

/// Whether a schedule matches an hour and a minute; `None` when either
/// field is invalid.
pub open spec fn whence_match(w: Whence, hour: u64, min: u64) -> Option<bool> {
    match field_match(w.hour@, hour) {
        None => None,
        Some(h) => match field_match(w.min@, min) {
            None => None,
            Some(m) => Some(h && m),
        },
    }
}

/// One schedule field against one clock value.
fn match_field(f: &str, v: u64) -> (r: ModResult<bool>)
    ensures
        match field_match(f@, v) {
            Some(b) => r matches Ok(x) && x == b,
            None => r matches Err(e) && e@ == "invalid schedule field"@,
        },
{
    proof {
        reveal_strlit("*");
    }
    if f.unicode_len() == 1 && f.get_char(0) == '*' {
        proof {
            assert(f@ =~= "*"@);
        }
        return Ok(true);
    }
    proof {
        assert(f@ != "*"@) by {
            if f@ == "*"@ {
                assert(f@.len() == 1 && f@[0] == '*');
            }
        }
    }
    match parse_u64(f) {
        Some(x) => Ok(x == v),
        None => Err(ModError::new("invalid schedule field")),
    }
}

impl Whence {
    /// Whether this schedule fires at the given hour and minute. An invalid
    /// field is an error.
    pub fn matches_at(&self, hour: u64, min: u64) -> (r: ModResult<bool>)
        ensures
            match whence_match(*self, hour, min) {
                Some(b) => r matches Ok(x) && x == b,
                None => r matches Err(e) && e@ == "invalid schedule field"@,
            },
    {
        let h = match match_field(self.hour.as_str(), hour) {
            Ok(b) => b,
            Err(e) => {
                return Err(e);
            },
        };
        let m = match match_field(self.min.as_str(), min) {
            Ok(b) => b,
            Err(e) => {
                return Err(e);
            },
        };
        Ok(h && m)
    }
}

/// One module to load: its registry name, its optional schedule, and its
/// optional configuration file.
#[derive(Debug, Clone)]
pub struct ModuleDefinition {
    pub cyclic: bool,
    pub whence: Option<Whence>,
    pub name: String,
    pub config: Option<String>,
}

/// The manager's configuration: the silence threshold in seconds and the
/// modules to load.
#[derive(Debug, Clone)]
pub struct ModuleManagerConfig {
    pub respawn_duration: u64,
    pub modules: Vec<ModuleDefinition>,
}

} // verus!
