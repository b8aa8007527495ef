//! Decisions of the desktop shell that supervises the helper process: how
//! the helper's log is read, and what each check while starting or stopping
//! the helper comes to. Times are milliseconds on a monotonic clock.

use vstd::prelude::*;
use crate::config::text_of;
use crate::config_normalize::texts_of;
use crate::text::{contains_text, split_on, text_contains, trim_spec, trimmed};

verus! {

/// How long a started helper has to open its local connection.
pub const START_TIMEOUT_MS: u64 = 6_000;

/// How long a helper asked to stop has to exit before it is killed.
pub const STOP_TIMEOUT_MS: u64 = 3_000;

/// The pause between two checks while the helper starts.
pub const START_POLL_MS: u64 = 80;

/// The pause between two checks while the helper stops.
pub const STOP_POLL_MS: u64 = 60;

/// What the helper writes to its log when another instance holds its place.
pub const INSTANCE_CONFLICT: &'static str = "HELPER_INSTANCE_CONFLICT";

/// A line without the carriage return that ended it.
pub open spec fn strip_cr(l: Seq<char>) -> Seq<char> {
    if l.len() > 0 && l.last() == '\r' {
        l.drop_last()
    } else {
        l
    }
}

/// The lines that ended in a line feed, each without its `\r\n` or `\n`.
pub open spec fn closed_lines(pieces: Seq<Seq<char>>) -> Seq<Seq<char>> {
    pieces.drop_last().map_values(|l: Seq<char>| strip_cr(l))
}

/// The lines of a text as `str::lines` gives them: split at each line feed,
/// a carriage return before it dropped, and no empty last line after a
/// final line feed.
pub open spec fn lines_spec(s: Seq<char>) -> Seq<Seq<char>> {
    let p = split_on(s, '\n');
    if p.last().len() == 0 {
        closed_lines(p)
    } else {
        closed_lines(p).push(p.last())
    }
}

/// The last `max` lines, or all of them where there are fewer.
pub open spec fn tail_spec(lines: Seq<Seq<char>>, max: nat) -> Seq<Seq<char>> {
    if lines.len() <= max {
        lines
    } else {
        lines.subrange(lines.len() - max, lines.len() as int)
    }
}

/// The last line that holds more than white space.
pub open spec fn last_nonblank(lines: Seq<Seq<char>>) -> Option<Seq<char>>
    decreases lines.len(),
{
    if lines.len() == 0 {
        None
    } else if trim_spec(lines.last()).len() > 0 {
        Some(lines.last())
    } else {
        last_nonblank(lines.drop_last())
    }
}

fn without_cr(line: &str) -> (r: &str)
    ensures
        r@ == strip_cr(line@),
{
    let m = line.unicode_len();
    if m > 0 && line.get_char(m - 1) == '\r' {
        let r = line.substring_char(0, m - 1);
        assert(r@ =~= line@.drop_last());
        r
    } else {
        line
    }
}

/// The lines of a text; see `lines_spec`.
pub fn text_lines(content: &str) -> (r: Vec<String>)
    ensures
        texts_of(r@) == lines_spec(content@),
{
    let ghost s = content@;
    let n = content.unicode_len();
    let mut out: Vec<String> = Vec::new();
    let mut start: usize = 0;
    let mut i: usize = 0;
    proof {
        assert(s.take(0) =~= Seq::<char>::empty());
        assert(s.subrange(0, 0) =~= Seq::<char>::empty());
        assert(texts_of(out@) =~= closed_lines(split_on(s.take(0), '\n')));
    }
    while i < n
        invariant
            n == s.len(),
            s == content@,
            start <= i <= n,
            split_on(s.take(i as int), '\n').len() >= 1,
            split_on(s.take(i as int), '\n').last() == s.subrange(start as int, i as int),
            texts_of(out@) == closed_lines(split_on(s.take(i as int), '\n')),
        decreases n - i,
    {
        let c = content.get_char(i);
        let ghost p = split_on(s.take(i as int), '\n');
        proof {
            assert(s.take(i + 1).drop_last() =~= s.take(i as int));
            assert(s.take(i + 1).last() == c);
        }
        if c == '\n' {
            let piece = content.substring_char(start, i);
            let line = without_cr(piece).to_owned();
            let ghost before = out@;
            out.push(line);
            start = i + 1;
            proof {
                let q = split_on(s.take(i + 1), '\n');
                assert(q == p.push(Seq::<char>::empty()));
                assert(q.drop_last() =~= p);
                assert(p =~= p.drop_last().push(p.last()));
                assert(closed_lines(q) =~= closed_lines(p).push(strip_cr(p.last())));
                assert(texts_of(out@) =~= texts_of(before).push(line@));
                assert(s.subrange(i + 1, i + 1) =~= Seq::<char>::empty());
            }
        } else {
            proof {
                let q = split_on(s.take(i + 1), '\n');
                assert(q == p.update(p.len() - 1, p.last().push(c)));
                assert(q.drop_last() =~= p.drop_last());
                assert(s.subrange(start as int, i + 1) =~= s.subrange(start as int, i as int).push(c));
            }
        }
        i += 1;
    }
    proof {
        assert(s.take(n as int) =~= s);
    }
    if start < n {
        let last = content.substring_char(start, n).to_owned();
        let ghost before = out@;
        out.push(last);
        proof {
            assert(texts_of(out@) =~= texts_of(before).push(last@));
        }
    } else {
        assert(s.subrange(start as int, n as int) =~= Seq::<char>::empty());
    }
    out
}

/// The last `max_lines` lines of a log's text.
pub fn log_tail(content: &str, max_lines: usize) -> (r: Vec<String>)
    ensures
        texts_of(r@) == tail_spec(lines_spec(content@), max_lines as nat),
{
    let lines = text_lines(content);
    let len = lines.len();
    let from = if len <= max_lines {
        0
    } else {
        len - max_lines
    };
    let mut out: Vec<String> = Vec::new();
    let mut k: usize = from;
    while k < len
        invariant
            from <= k <= len,
            len == lines@.len(),
            texts_of(out@) == texts_of(lines@).subrange(from as int, k as int),
        decreases len - k,
    {
        let line = lines[k].clone();
        let ghost before = out@;
        out.push(line);
        proof {
            assert(texts_of(out@) =~= texts_of(before).push(line@));
            assert(texts_of(lines@).subrange(from as int, k + 1) =~= texts_of(lines@).subrange(
                from as int,
                k as int,
            ).push(lines@[k as int]@));
        }
        k += 1;
    }
    proof {
        let ls = texts_of(lines@);
        if len <= max_lines {
            assert(ls.subrange(0, len as int) =~= ls);
        }
    }
    out
}

/// The last line of a log's text that holds more than white space.
pub fn last_nonempty_line(content: &str) -> (r: Option<String>)
    ensures
        text_of(r) == last_nonblank(lines_spec(content@)),
{
    let lines = text_lines(content);
    let ghost ls = texts_of(lines@);
    let mut k: usize = lines.len();
    assert(ls.take(k as int) =~= ls);
    while k > 0
        invariant
            k <= lines@.len(),
            ls == texts_of(lines@),
            ls == lines_spec(content@),
            last_nonblank(ls) == last_nonblank(ls.take(k as int)),
        decreases k,
    {
        proof {
            assert(ls.take(k as int).last() == lines@[k - 1]@);
            assert(ls.take(k as int).drop_last() =~= ls.take(k - 1));
        }
        if trimmed(lines[k - 1].as_str()).unicode_len() > 0 {
            let line = lines[k - 1].clone();
            assert(line@ == ls[k - 1]);
            return Some(line);
        }
        k -= 1;
    }
    assert(ls.take(0) =~= Seq::<Seq<char>>::empty());
    None
}

/// Where reading a log resumes: at `offset`, unless the log is now shorter
/// (it was replaced), then from its start.
pub fn log_start(len: u64, offset: u64) -> (r: u64)
    ensures
        r == if len >= offset {
            offset
        } else {
            0
        },
{
    if len >= offset {
        offset
    } else {
        0
    }
}

/// Why a started helper exited at once.
#[derive(Clone, Debug, PartialEq, Eq)]
pub enum StartFailure {
    /// Another instance holds the helper's place.
    InstanceConflict,
    /// The helper exited on its own; the last line it logged, if any.
    Exited(Option<String>),
}

/// Reads what the helper logged since it was started, after it exited.
pub fn start_failure(new_log: &str) -> (r: StartFailure)
    ensures
        match r {
            StartFailure::InstanceConflict => contains_text(new_log@, INSTANCE_CONFLICT@),
            StartFailure::Exited(line) => !contains_text(new_log@, INSTANCE_CONFLICT@) && text_of(
                line,
            ) == last_nonblank(lines_spec(new_log@)),
        },
{
    if text_contains(new_log, INSTANCE_CONFLICT) {
        StartFailure::InstanceConflict
    } else {
        StartFailure::Exited(last_nonempty_line(new_log))
    }
}

/// What one check while the helper starts comes to.
#[derive(Clone, Copy, Debug, PartialEq, Eq, Structural)]
pub enum StartStep {
    /// The helper exited: starting failed.
    Exited,
    /// The helper answers on its local connection.
    Ready,
    /// Time is up: the helper is to be killed.
    TimedOut,
    /// Check again after a pause.
    Wait,
}

pub open spec fn start_step_spec(exited: bool, ready: bool, now: u64, deadline: u64) -> StartStep {
    if exited {
        StartStep::Exited
    } else if ready {
        StartStep::Ready
    } else if now >= deadline {
        StartStep::TimedOut
    } else {
        StartStep::Wait
    }
}

/// Decides a check while the helper starts: an exit counts first, then an
/// answer, then the deadline.
pub fn start_step(exited: bool, ready: bool, now: u64, deadline: u64) -> (r: StartStep)
    ensures
        r == start_step_spec(exited, ready, now, deadline),
{
    if exited {
        StartStep::Exited
    } else if ready {
        StartStep::Ready
    } else if now >= deadline {
        StartStep::TimedOut
    } else {
        StartStep::Wait
    }
}

/// What one check while the helper stops comes to.
#[derive(Clone, Copy, Debug, PartialEq, Eq, Structural)]
pub enum StopStep {
    /// The helper exited; `graceful` when it had been asked to.
    Stopped { graceful: bool },
    /// Time is up: the helper is to be killed.
    Kill,
    /// Check again after a pause.
    Wait,
}

pub open spec fn stop_step_spec(exited: bool, asked: bool, now: u64, deadline: u64) -> StopStep {
    if now >= deadline {
        StopStep::Kill
    } else if exited {
        StopStep::Stopped { graceful: asked }
    } else {
        StopStep::Wait
    }
}

/// Decides a check while the helper stops: past the deadline it is killed,
/// before it an exit ends the wait, gracefully when the helper was asked.
pub fn stop_step(exited: bool, asked: bool, now: u64, deadline: u64) -> (r: StopStep)
    ensures
        r == stop_step_spec(exited, asked, now, deadline),
{
    if now >= deadline {
        StopStep::Kill
    } else if exited {
        StopStep::Stopped { graceful: asked }
    } else {
        StopStep::Wait
    }
}

} // verus!
