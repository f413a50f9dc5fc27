//! Progress messages of the dictionary importer, picked out of the log
//! stream and forwarded to the user interface over a channel.

use vstd::prelude::*;
use crate::text::{chars_of, has_prefix, string_of};

verus! {

#[verifier::external_type_specification]
#[verifier::external_body]
#[verifier::reject_recursive_types(T)]
pub struct ExSender<T>(std::sync::mpsc::Sender<T>);

/// The severity of a log event, from the most verbose to the most severe.
#[derive(Clone, Copy, Debug, PartialEq, Eq, Structural)]
pub enum LogLevel {
    Trace,
    Debug,
    Info,
    Warn,
    Error,
}

/// The log target prefix under which the importer reports its progress.
pub open spec fn importer_target() -> Seq<char> {
    seq!['y', 'o', 'm', 'i', 'c', 'h', 'a', 'n', '_', 'i', 'm', 'p', 'o', 'r', 't', 'e', 'r']
}

/// `s` without its leading double quotes.
pub open spec fn strip_quotes_start(s: Seq<char>) -> Seq<char>
    decreases s.len(),
{
    if s.len() > 0 && s[0] == '"' {
        strip_quotes_start(s.drop_first())
    } else {
        s
    }
}

/// `s` without its trailing double quotes.
pub open spec fn strip_quotes_end(s: Seq<char>) -> Seq<char>
    decreases s.len(),
{
    if s.len() > 0 && s.last() == '"' {
        strip_quotes_end(s.drop_last())
    } else {
        s
    }
}

/// `s` with double quotes removed at both ends (`str::trim_matches('"')`).
pub open spec fn trim_quotes(s: Seq<char>) -> Seq<char> {
    strip_quotes_end(strip_quotes_start(s))
}

/// The progress text forwarded for a log event of `target` at `level` whose
/// message field was recorded as `recorded`: only the importer's
/// informational events, and only when a message was recorded.
pub open spec fn progress_text(target: Seq<char>, level: LogLevel, recorded: Seq<char>) -> Option<
    Seq<char>,
> {
    if has_prefix(target, importer_target()) && level == LogLevel::Info && recorded.len() > 0 {
        Some(trim_quotes(recorded))
    } else {
        None
    }
}

/// `s` with double quotes removed at both ends.
pub fn trim_quotes_of(s: &str) -> (r: String)
    ensures
        r@ == trim_quotes(s@),
{
    let cs = chars_of(s);
    let n = cs.len();
    let mut i: usize = 0;
    assert(cs@.skip(0) =~= cs@);
    while i < n && cs[i] == '"'
        invariant
            n == cs.len(),
            i <= n,
            strip_quotes_start(cs@) == strip_quotes_start(cs@.skip(i as int)),
        decreases n - i,
    {
        assert(cs@.skip(i as int).drop_first() =~= cs@.skip(i + 1));
        i += 1;
    }
    let ghost mid = cs@.skip(i as int);
    assert(strip_quotes_start(cs@) == mid);
    let mut j: usize = n;
    assert(cs@.subrange(i as int, n as int) =~= mid);
    while j > i && cs[j - 1] == '"'
        invariant
            n == cs.len(),
            i <= j <= n,
            mid == cs@.skip(i as int),
            strip_quotes_end(mid) == strip_quotes_end(cs@.subrange(i as int, j as int)),
        decreases j - i,
    {
        assert(cs@.subrange(i as int, j as int).drop_last() =~= cs@.subrange(
            i as int,
            j - 1,
        ));
        j -= 1;
    }
    let mut kept: Vec<char> = Vec::new();
    let mut k: usize = i;
    while k < j
        invariant
            i <= k <= j <= n,
            n == cs.len(),
            kept@ == cs@.subrange(i as int, k as int),
        decreases j - k,
    {
        kept.push(cs[k]);
        assert(cs@.subrange(i as int, k + 1) =~= cs@.subrange(i as int, k as int).push(
            cs@[k as int],
        ));
        k += 1;
    }
    string_of(&kept)
}

/// The text to forward for a log event of `target` at `level` whose message
/// field was recorded as `recorded`, if any.
pub fn progress_message(target: &str, level: LogLevel, recorded: &str) -> (r: Option<String>)
    ensures
        match r {
            Some(t) => progress_text(target@, level, recorded@) == Some(t@),
            None => progress_text(target@, level, recorded@) is None,
        },
{
    if level != LogLevel::Info {
        return None;
    }
    let t = chars_of(target);
    let prefix = "yomichan_importer";
    proof {
        reveal_strlit("yomichan_importer");
    }
    let p = chars_of(prefix);
    assert(p@ =~= importer_target());
    if p.len() > t.len() {
        return None;
    }
    let mut i: usize = 0;
    while i < p.len()
        invariant
            i <= p.len() <= t.len(),
            t@ == target@,
            p@ == importer_target(),
            forall|k: int| 0 <= k < i ==> t@[k] == p@[k],
        decreases p.len() - i,
    {
        if t[i] != p[i] {
            assert(t@.subrange(0, p.len() as int)[i as int] != p@[i as int]);
            return None;
        }
        i += 1;
    }
    assert(t@.subrange(0, p.len() as int) =~= p@);
    if recorded.unicode_len() == 0 {
        return None;
    }
    Some(trim_quotes_of(recorded))
}

/// Forwards the importer's progress messages to the interface: the text that
/// `progress_message` picks out of a log event is sent on `sender` by the
/// program's logging layer.
pub struct ProgressLayer {
    /// Where the progress texts go.
    pub sender: std::sync::mpsc::Sender<String>,
}

} // verus!
