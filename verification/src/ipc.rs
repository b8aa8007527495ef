//! Pieces of the helper's local WebSocket protocol that do not touch the
//! network: checking the token a client offers, and message time stamps.

use vstd::prelude::*;
use vstd::utf8::encode_utf8;
use crate::text::{lemma_split_prefix, split_on, text_eq, trim_spec, trimmed};

verus! {

/// Compares two tokens byte by byte without stopping at the first
/// difference; true exactly when the texts are equal.
pub fn constant_time_eq(left: &str, right: &str) -> (r: bool)
    ensures
        r == (left@ == right@),
{
    let a = left.as_bytes();
    let b = right.as_bytes();
    proof {
        vstd::utf8::encode_utf8_decode_utf8(left@);
        vstd::utf8::encode_utf8_decode_utf8(right@);
    }
    if a.len() != b.len() {
        return false;
    }
    let mut difference: u8 = 0;
    let mut i: usize = 0;
    assert(a@.subrange(0, 0) =~= b@.subrange(0, 0));
    while i < a.len()
        invariant
            a@ == encode_utf8(left@),
            b@ == encode_utf8(right@),
            a@.len() == b@.len(),
            i <= a@.len(),
            (difference == 0) == (a@.subrange(0, i as int) == b@.subrange(0, i as int)),
        decreases a@.len() - i,
    {
        let x = a[i];
        let y = b[i];
        let d = difference;
        assert((d | (x ^ y)) == 0 <==> (d == 0 && x == y)) by (bit_vector);
        assert(a@.subrange(0, i + 1) == a@.subrange(0, i as int).push(x));
        assert(b@.subrange(0, i + 1) == b@.subrange(0, i as int).push(y));
        if d == 0 && x != y {
            assert(a@.subrange(0, i + 1)[i as int] != b@.subrange(0, i + 1)[i as int]);
        }
        if d != 0 {
            assert(a@.subrange(0, i + 1) != b@.subrange(0, i + 1)) by {
                if a@.subrange(0, i + 1) == b@.subrange(0, i + 1) {
                    assert(a@.subrange(0, i as int) =~= a@.subrange(0, i + 1).drop_last());
                    assert(b@.subrange(0, i as int) =~= b@.subrange(0, i + 1).drop_last());
                }
            }
        }
        difference = d | (x ^ y);
        i += 1;
    }
    proof {
        assert(a@.subrange(0, a@.len() as int) =~= a@);
        assert(b@.subrange(0, b@.len() as int) =~= b@);
    }
    difference == 0
}

/// A client is let in when one of the protocols it offers, trimmed, is the
/// token.
pub open spec fn offers_token(protocols: Seq<char>, token: Seq<char>) -> bool {
    exists|k: int|
        0 <= k < split_on(protocols, ',').len() && trim_spec(#[trigger] split_on(protocols, ',')[k])
            == token
}

/// Whether the comma-separated protocols a client offers include the token;
/// each offer is compared in constant time.
pub fn protocols_authorize(protocols: &str, token: &str) -> (r: bool)
    ensures
        r == offers_token(protocols@, token@),
{
    let ghost s = protocols@;
    let n = protocols.unicode_len();
    let mut start: usize = 0;
    let mut i: usize = 0;
    proof {
        assert(s.take(0) =~= Seq::<char>::empty());
        assert(s.subrange(0, 0) =~= Seq::<char>::empty());
    }
    while i < n
        invariant
            n == s.len(),
            s == protocols@,
            start <= i <= n,
            split_on(s.take(i as int), ',').len() >= 1,
            split_on(s.take(i as int), ',').last() == s.subrange(start as int, i as int),
            forall|k: int|
                0 <= k < split_on(s.take(i as int), ',').len() - 1 ==> trim_spec(
                    #[trigger] split_on(s.take(i as int), ',')[k],
                ) != token@,
        decreases n - i,
    {
        let c = protocols.get_char(i);
        let ghost p = split_on(s.take(i as int), ',');
        proof {
            assert(s.take(i + 1).drop_last() =~= s.take(i as int));
            assert(s.take(i + 1).last() == c);
        }
        if c == ',' {
            let piece = protocols.substring_char(start, i);
            if constant_time_eq(trimmed(piece), token) {
                proof {
                    lemma_split_prefix(s, ',', i as int, n as int);
                    assert(s.take(n as int) =~= s);
                    assert(split_on(s, ',')[p.len() - 1] == p[p.len() - 1]);
                }
                return true;
            }
            start = i + 1;
            proof {
                assert(s.subrange(i + 1, i + 1) =~= Seq::<char>::empty());
                let q = split_on(s.take(i + 1), ',');
                assert(q == p.push(Seq::<char>::empty()));
                assert forall|k: int| 0 <= k < q.len() - 1 implies trim_spec(#[trigger] q[k])
                    != token@ by {
                    assert(q[k] == p[k]);
                }
            }
        } else {
            proof {
                let q = split_on(s.take(i + 1), ',');
                assert(q == p.update(p.len() - 1, p.last().push(c)));
                assert(s.subrange(start as int, i + 1) =~= s.subrange(start as int, i as int).push(c));
                assert forall|k: int| 0 <= k < q.len() - 1 implies trim_spec(#[trigger] q[k])
                    != token@ by {
                    assert(q[k] == p[k]);
                }
            }
        }
        i += 1;
    }
    proof {
        assert(s.take(n as int) =~= s);
    }
    let piece = protocols.substring_char(start, n);
    let found = constant_time_eq(trimmed(piece), token);
    proof {
        let p = split_on(s, ',');
        if found {
            assert(trim_spec(p[p.len() - 1]) == token@);
        } else {
            assert forall|k: int| 0 <= k < p.len() implies trim_spec(#[trigger] p[k]) != token@ by {}
        }
    }
    found
}

/// What a client's message asks of the helper, by its type.
#[derive(Clone, Copy, Debug, PartialEq, Eq, Structural)]
pub enum Request {
    /// `config.update`: normalize, save and apply new settings.
    ConfigUpdate,
    /// `helper.ping`: answer with a pong under the same id.
    Ping,
    /// `usage.get`: send the usage counters.
    UsageGet,
    /// `helper.stop`: close the connection and shut the helper down.
    Stop,
    /// Anything else: report it as unknown.
    Unknown,
}

pub open spec fn request_spec(kind: Seq<char>) -> Request {
    if kind == "config.update"@ {
        Request::ConfigUpdate
    } else if kind == "helper.ping"@ {
        Request::Ping
    } else if kind == "usage.get"@ {
        Request::UsageGet
    } else if kind == "helper.stop"@ {
        Request::Stop
    } else {
        Request::Unknown
    }
}

/// Reads the type of a client's message.
pub fn request_of(kind: &str) -> (r: Request)
    ensures
        r == request_spec(kind@),
{
    if text_eq(kind, "config.update") {
        Request::ConfigUpdate
    } else if text_eq(kind, "helper.ping") {
        Request::Ping
    } else if text_eq(kind, "usage.get") {
        Request::UsageGet
    } else if text_eq(kind, "helper.stop") {
        Request::Stop
    } else {
        Request::Unknown
    }
}

#[verifier::external_type_specification]
#[verifier::external_body]
pub struct ExSystemTime(std::time::SystemTime);

/// Calls `SystemTime::now`: the wall-clock time, which nothing here states.
#[verifier::external_body]
fn system_now() -> std::time::SystemTime {
    std::time::SystemTime::now()
}

/// Calls `SystemTime::duration_since` with the Unix epoch: the time elapsed
/// since then, or nothing for a clock set before it. Which comes out depends
/// on the clock and is not stated.
#[verifier::external_body]
fn since_unix_epoch(t: &std::time::SystemTime) -> Option<std::time::Duration> {
    t.duration_since(std::time::UNIX_EPOCH).ok()
}

/// Calls `Duration::as_millis`: the whole milliseconds of a duration, which
/// this library cannot see inside.
#[verifier::external_body]
fn whole_millis(d: &std::time::Duration) -> u128 {
    d.as_millis()
}

/// The time stamp of a message from the milliseconds elapsed since the Unix
/// epoch: their low 64 bits, or 0 when the clock reads before the epoch.
pub fn timestamp_from_millis(millis: Option<u128>) -> (r: u64)
    ensures
        r == (match millis {
            Some(m) => (m % 0x1_0000_0000_0000_0000) as u64,
            None => 0,
        }),
{
    match millis {
        Some(m) => {
            let low = m % 0x1_0000_0000_0000_0000;
            low as u64
        },
        None => 0,
    }
}

/// Milliseconds since the Unix epoch on the wall clock, or 0 when the clock
/// reads before it. The value read depends on the clock, so nothing more is
/// stated here; `timestamp_from_millis` states what becomes of it.
pub fn timestamp_ms() -> u64 {
    let millis = match since_unix_epoch(&system_now()) {
        Some(d) => Some(whole_millis(&d)),
        None => None,
    };
    timestamp_from_millis(millis)
}

} // verus!
