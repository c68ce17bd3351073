//! The custom-script engine: judging a script's exit code is settled here;
//! starting the script is outside work and happens with the caller.

use vstd::prelude::*;
use crate::sync::synchrotrait::SynchroError;
use crate::sync::synchrotrait::SynchroResult;
use crate::sync::synchrotrait::SynchroState;
use crate::sync::task::TaskCustomScript;
use crate::text::int_digits;
use vstd::string::StringExecFns;

verus! {

/// Runs one custom script as a synchronization engine.
pub struct ScriptRunner(pub TaskCustomScript);

/// True exactly when the list holds the value.
fn codes_contain(codes: &Vec<i64>, v: i64) -> (r: bool)
    ensures
        r == codes@.contains(v),
{
    let n = codes.len();
    let mut i: usize = 0;
    while i < n
        invariant
            i <= n,
            n == codes@.len(),
            forall|j: int| 0 <= j < i ==> codes@[j] != v,
        decreases n - i,
    {
        if codes[i] == v {
            return true;
        }
        i = i + 1;
    }
    false
}

impl ScriptRunner {
    /// Judges how the script ended: a code in the clean list is good, one
    /// in the warning list is a warning, one in the error list fails the
    /// synchronization, and an unlisted code, or no code at all, counts as
    /// a zero warning.
    pub fn judge(&self, code: Option<i64>) -> (r: SynchroResult<SynchroState>)
        ensures
            match code {
                Some(c) => {
                    &&& self.0.ok_return_codes.0@.contains(c) ==> (r matches Ok(
                        SynchroState::Good(g),
                    ) && g == c as u64)
                    &&& !self.0.ok_return_codes.0@.contains(c)
                        && self.0.warn_return_codes.0@.contains(c) ==> (r matches Ok(
                        SynchroState::Warn(w),
                    ) && w == c as u64)
                    &&& !self.0.ok_return_codes.0@.contains(c)
                        && !self.0.warn_return_codes.0@.contains(c)
                        && self.0.err_return_codes.0@.contains(c) ==> (r matches Err(e)
                        && e.spec_code() == 32 && e.spec_message()
                        == "Synchro échouée : Le script a renvoyé une valeur de "@ + int_digits(
                        c as int,
                    ))
                    &&& !self.0.ok_return_codes.0@.contains(c)
                        && !self.0.warn_return_codes.0@.contains(c)
                        && !self.0.err_return_codes.0@.contains(c) ==> (r matches Ok(
                        SynchroState::Warn(w),
                    ) && w == 0)
                },
                None => r matches Ok(SynchroState::Warn(w)) && w == 0,
            },
    {
        match code {
            Some(c) => {
                if codes_contain(&self.0.ok_return_codes.0, c) {
                    Ok(SynchroState::Good(c as u64))
                } else if codes_contain(&self.0.warn_return_codes.0, c) {
                    Ok(SynchroState::Warn(c as u64))
                } else if codes_contain(&self.0.err_return_codes.0, c) {
                    let mut msg = "Synchro échouée : Le script a renvoyé une valeur de "
                        .to_owned();
                    let digits = crate::text::i64_to_string(c);
                    msg.append(digits.as_str());
                    Err(SynchroError::new(msg, 32))
                } else {
                    Ok(SynchroState::Warn(0))
                }
            },
            None => Ok(SynchroState::Warn(0)),
        }
    }
}

} // verus!
