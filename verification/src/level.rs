//! Choosing the verbosity of the log by name.

use vstd::prelude::*;
use crate::text::to_chars;

verus! {

/// How much is logged.
#[derive(Clone, Copy, Debug, PartialEq, Eq, Structural)]
pub enum LogLevel {
    Error,
    Warn,
    Info,
    Debug,
    Trace,
}

/// Whether `name` is the word written as `lower` in small letters and as
/// `upper` in capitals, each letter in either case.
pub open spec fn spells(name: Seq<char>, lower: Seq<char>, upper: Seq<char>) -> bool {
    &&& name.len() == lower.len()
    &&& forall|i: int| 0 <= i < name.len() ==> name[i] == lower[i] || name[i] == upper[i]
}

/// The level that a name selects: `error`, `warn`, `info`, `debug` or
/// `trace`, in any mix of cases; every other name selects `Info`.
pub open spec fn level_of(name: Seq<char>) -> LogLevel {
    if spells(name, seq!['e', 'r', 'r', 'o', 'r'], seq!['E', 'R', 'R', 'O', 'R']) {
        LogLevel::Error
    } else if spells(name, seq!['w', 'a', 'r', 'n'], seq!['W', 'A', 'R', 'N']) {
        LogLevel::Warn
    } else if spells(name, seq!['d', 'e', 'b', 'u', 'g'], seq!['D', 'E', 'B', 'U', 'G']) {
        LogLevel::Debug
    } else if spells(name, seq!['t', 'r', 'a', 'c', 'e'], seq!['T', 'R', 'A', 'C', 'E']) {
        LogLevel::Trace
    } else {
        LogLevel::Info
    }
}

fn is_word(name: &Vec<char>, lower: &Vec<char>, upper: &Vec<char>) -> (b: bool)
    requires
        lower.len() == upper.len(),
    ensures
        b == spells(name@, lower@, upper@),
{
    if name.len() != lower.len() {
        return false;
    }
    let mut k: usize = 0;
    while k < name.len()
        invariant
            k <= name.len(),
            name.len() == lower.len(),
            lower.len() == upper.len(),
            forall|i: int| 0 <= i < k ==> name@[i] == lower@[i] || name@[i] == upper@[i],
        decreases name.len() - k,
    {
        if name[k] != lower[k] && name[k] != upper[k] {
            return false;
        }
        k += 1;
    }
    true
}

/// Selects the log level by its name, without regard to case. A name that
/// is none of the five levels selects `Info`.
pub fn level_from_name(name: &str) -> (level: LogLevel)
    ensures
        level == level_of(name@),
{
    let chars = to_chars(name);
    let error_lower = vec!['e', 'r', 'r', 'o', 'r'];
    let error_upper = vec!['E', 'R', 'R', 'O', 'R'];
    let warn_lower = vec!['w', 'a', 'r', 'n'];
    let warn_upper = vec!['W', 'A', 'R', 'N'];
    let debug_lower = vec!['d', 'e', 'b', 'u', 'g'];
    let debug_upper = vec!['D', 'E', 'B', 'U', 'G'];
    let trace_lower = vec!['t', 'r', 'a', 'c', 'e'];
    let trace_upper = vec!['T', 'R', 'A', 'C', 'E'];
    proof {
        assert(error_lower@ =~= seq!['e', 'r', 'r', 'o', 'r']);
        assert(error_upper@ =~= seq!['E', 'R', 'R', 'O', 'R']);
        assert(warn_lower@ =~= seq!['w', 'a', 'r', 'n']);
        assert(warn_upper@ =~= seq!['W', 'A', 'R', 'N']);
        assert(debug_lower@ =~= seq!['d', 'e', 'b', 'u', 'g']);
        assert(debug_upper@ =~= seq!['D', 'E', 'B', 'U', 'G']);
        assert(trace_lower@ =~= seq!['t', 'r', 'a', 'c', 'e']);
        assert(trace_upper@ =~= seq!['T', 'R', 'A', 'C', 'E']);
    }
    if is_word(&chars, &error_lower, &error_upper) {
        LogLevel::Error
    } else if is_word(&chars, &warn_lower, &warn_upper) {
        LogLevel::Warn
    } else if is_word(&chars, &debug_lower, &debug_upper) {
        LogLevel::Debug
    } else if is_word(&chars, &trace_lower, &trace_upper) {
        LogLevel::Trace
    } else {
        LogLevel::Info
    }
}

} // verus!
