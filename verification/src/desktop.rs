//! Values and decisions of the desktop shell that hosts the helper: its
//! fixed names, the opt-in smoke-test exit delay, and the results it reports
//! to its window.

use vstd::prelude::*;
use crate::auth::{is_valid_token, valid_token};
use crate::text::{trim_spec, trim_to_string};

verus! {

/// The only external address the desktop shell opens.
pub const REPOSITORY_URL: &'static str = "https://github.com/ximizhou/convenient_window_free";

/// The named event the uninstaller signals to shut the desktop shell down.
pub const UNINSTALL_SHUTDOWN_EVENT_NAME: &'static str = "Local\\com.ximizhou.convenientwindow.shutdown";

/// Shortest smoke-test exit delay accepted, in milliseconds.
pub const SMOKE_EXIT_MIN_MS: u64 = 1_000;

/// Longest smoke-test exit delay accepted, in milliseconds.
pub const SMOKE_EXIT_MAX_MS: u64 = 120_000;

pub open spec fn is_digit(c: char) -> bool {
    '0' <= c <= '9'
}

pub open spec fn all_digits(s: Seq<char>) -> bool {
    forall|i: int| 0 <= i < s.len() ==> is_digit(#[trigger] s[i])
}

/// The number a string of decimal digits denotes.
pub open spec fn digits_value(s: Seq<char>) -> nat
    decreases s.len(),
{
    if s.len() == 0 {
        0
    } else {
        digits_value(s.drop_last()) * 10 + ((s.last() as int) - ('0' as int)) as nat
    }
}

/// The digits of an unsigned number's text: an optional leading `+` is
/// dropped.
pub open spec fn unsigned_digits(s: Seq<char>) -> Seq<char> {
    if s.len() > 0 && s[0] == '+' {
        s.drop_first()
    } else {
        s
    }
}

/// What parsing a text as a `u64` gives: the number for one or more decimal
/// digits (after an optional `+`) whose value fits, nothing otherwise.
pub open spec fn parse_u64_spec(s: Seq<char>) -> Option<u64> {
    let d = unsigned_digits(s);
    if d.len() == 0 || !all_digits(d) || digits_value(d) > u64::MAX {
        None
    } else {
        Some(digits_value(d) as u64)
    }
}

proof fn lemma_digits_value_grows(s: Seq<char>, j: int, k: int)
    requires
        all_digits(s),
        0 <= j <= k <= s.len(),
    ensures
        digits_value(s.take(j)) <= digits_value(s.take(k)),
    decreases k - j,
{
    if j < k {
        lemma_digits_value_grows(s, j, k - 1);
        assert(s.take(k).drop_last() =~= s.take(k - 1));
        assert(is_digit(s[k - 1]));
    }
}

/// Parses a text as a `u64` the way the standard library does for decimal
/// text.
pub fn parse_u64(text: &str) -> (r: Option<u64>)
    ensures
        r == parse_u64_spec(text@),
{
    let n = text.unicode_len();
    let mut i: usize = 0;
    if n > 0 && text.get_char(0) == '+' {
        i = 1;
    }
    let start = i;
    let ghost d = unsigned_digits(text@);
    proof {
        assert(d =~= text@.skip(start as int));
    }
    if start == n {
        return None;
    }
    let mut value: u64 = 0;
    while i < n
        invariant
            n == text@.len(),
            start <= i <= n,
            start < n,
            d =~= text@.skip(start as int),
            d == unsigned_digits(text@),
            all_digits(d.take(i - start)),
            value == digits_value(d.take(i - start)),
        decreases n - i,
    {
        let c = text.get_char(i);
        proof {
            assert(d[i - start] == c);
            assert(d.take(i - start + 1).drop_last() =~= d.take(i - start));
        }
        if !('0' <= c && c <= '9') {
            assert(!all_digits(d));
            return None;
        }
        let digit = (c as u32 - '0' as u32) as u64;
        if value > (u64::MAX - digit) / 10 {
            proof {
                assert(value * 10 + digit > u64::MAX) by (nonlinear_arith)
                    requires
                        value > (u64::MAX - digit) / 10,
                        digit <= 9,
                ;
                assert(all_digits(d.take(i - start + 1)));
                if all_digits(d) {
                    assert(d.take(d.len() as int) =~= d);
                    assert(d.take(i - start + 1) =~= d.take(d.len() as int).take(i - start + 1));
                    lemma_digits_value_grows(d, i - start + 1, d.len() as int);
                }
            }
            return None;
        }
        value = value * 10 + digit;
        i += 1;
    }
    proof {
        assert(d.take(d.len() as int) =~= d);
    }
    Some(value)
}

/// The smoke-test exit delay asked for by `value`: a whole number of
/// milliseconds from one second to two minutes; anything else, or no value,
/// turns the smoke exit off.
pub fn parse_smoke_exit_delay(value: Option<&str>) -> (r: Option<u64>)
    ensures
        r == (match value {
            Some(text) => match parse_u64_spec(text@) {
                Some(ms) => if SMOKE_EXIT_MIN_MS <= ms <= SMOKE_EXIT_MAX_MS {
                    Some(ms)
                } else {
                    None
                },
                None => None,
            },
            None => None,
        }),
{
    let text = match value {
        Some(text) => text,
        None => return None,
    };
    match parse_u64(text) {
        Some(ms) => if SMOKE_EXIT_MIN_MS <= ms && ms <= SMOKE_EXIT_MAX_MS {
            Some(ms)
        } else {
            None
        },
        None => None,
    }
}

/// The helper token that the desktop shell reads back from the token file's
/// text: the text without surrounding white space when that is a complete
/// token, nothing otherwise.
pub fn accepted_token(content: &str) -> (r: Option<String>)
    ensures
        match r {
            Some(t) => t@ == trim_spec(content@) && valid_token(t@),
            None => !valid_token(trim_spec(content@)),
        },
{
    let trimmed = trim_to_string(content);
    if is_valid_token(trimmed.as_str()) {
        Some(trimmed)
    } else {
        None
    }
}

/// A runtime library of the helper's standard library: `std-*.dll`.
pub open spec fn std_runtime_name_spec(name: Seq<char>) -> bool {
    &&& name.len() >= 4
    &&& name.subrange(0, 4) == seq!['s', 't', 'd', '-']
    &&& name.subrange(name.len() - 4, name.len() as int) == seq!['.', 'd', 'l', 'l']
}

pub fn is_std_runtime_name(name: &str) -> (r: bool)
    ensures
        r == std_runtime_name_spec(name@),
{
    let n = name.unicode_len();
    if n < 4 {
        return false;
    }
    let r = name.get_char(0) == 's' && name.get_char(1) == 't' && name.get_char(2) == 'd'
        && name.get_char(3) == '-' && name.get_char(n - 4) == '.' && name.get_char(n - 3) == 'd'
        && name.get_char(n - 2) == 'l' && name.get_char(n - 1) == 'l';
    proof {
        let s = name@;
        let head = s.subrange(0, 4);
        let tail = s.subrange(n - 4, n as int);
        if r {
            assert(head =~= seq!['s', 't', 'd', '-']);
            assert(tail =~= seq!['.', 'd', 'l', 'l']);
        }
        if std_runtime_name_spec(s) {
            assert(head[0] == s[0] && head[1] == s[1] && head[2] == s[2] && head[3] == s[3]);
            assert(tail[0] == s[n - 4] && tail[1] == s[n - 3] && tail[2] == s[n - 2] && tail[3] == s[n
                - 1]);
        }
    }
    r
}

/// What keeps the helper's files from being started.
#[derive(Clone, Copy, Debug, PartialEq, Eq, Structural)]
pub enum PayloadProblem {
    /// The helper executable is missing.
    MissingHelper,
    /// The unwinding runtime library is missing.
    MissingUnwind,
    /// No `std-*.dll` runtime library is present.
    MissingStdRuntime,
}

/// Checks the helper's directory, from whether the executable and the
/// unwinding library are present and the names of its regular files: the
/// first missing piece, in that order, or nothing when all are there.
pub fn payload_problem(helper_present: bool, unwind_present: bool, file_names: &[String]) -> (r:
    Option<PayloadProblem>)
    ensures
        r == (if !helper_present {
            Some(PayloadProblem::MissingHelper)
        } else if !unwind_present {
            Some(PayloadProblem::MissingUnwind)
        } else if exists|i: int|
            0 <= i < file_names@.len() && std_runtime_name_spec(#[trigger] file_names@[i]@) {
            None
        } else {
            Some(PayloadProblem::MissingStdRuntime)
        }),
{
    if !helper_present {
        return Some(PayloadProblem::MissingHelper);
    }
    if !unwind_present {
        return Some(PayloadProblem::MissingUnwind);
    }
    let mut i: usize = 0;
    while i < file_names.len()
        invariant
            helper_present && unwind_present,
            i <= file_names@.len(),
            forall|j: int| 0 <= j < i ==> !std_runtime_name_spec(#[trigger] file_names@[j]@),
        decreases file_names.len() - i,
    {
        let name = &file_names[i];
        assert(*name == file_names@[i as int]);
        if is_std_runtime_name(name.as_str()) {
            assert(std_runtime_name_spec(file_names@[i as int]@));
            return None;
        }
        i += 1;
    }
    Some(PayloadProblem::MissingStdRuntime)
}

/// What starting the helper reported.
#[derive(Clone, Debug, PartialEq, Eq)]
pub struct StartResult {
    pub already_running: bool,
    pub data_dir: String,
    pub helper_path: String,
    pub token: String,
}

/// What stopping the helper reported.
#[derive(Clone, Copy, Debug, PartialEq, Eq, Structural)]
pub struct StopResult {
    pub was_running: bool,
    pub graceful: bool,
}

} // verus!
