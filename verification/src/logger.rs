//! The content of the spawn log: its lines and the tail shown to the user.

use vstd::prelude::*;
use vstd::string::StringSliceAdditionalSpecFns;
use vstd::utf8::is_char_boundary;
use crate::text::{concat, join, join_strings, strings_from};
use crate::version::{split_on, split_char};

verus! {

/// The longest command preview written to the log, in bytes.
pub const MAX_CMD_PREVIEW: usize = 80;

/// The first `max` bytes of `s` (all of `s` when it is not longer).
pub open spec fn truncated(s: Seq<u8>, max: nat) -> Seq<u8> {
    if s.len() <= max { s } else { s.subrange(0, max as int) }
}

/// Cuts `s` to at most `max` bytes; the cut must fall on a character boundary.
pub fn truncate(s: &str, max: usize) -> (r: &str)
    requires
        s.spec_bytes().len() <= usize::MAX,
        s.spec_bytes().len() <= max || is_char_boundary(s.spec_bytes(), max as int),
    ensures
        r.spec_bytes() == truncated(s.spec_bytes(), max as nat),
{
    if s.len() <= max {
        s
    } else {
        s.split_at(max).0
    }
}

/// The log line of one spawn event.
pub open spec fn spawn_line(
    now: Seq<char>,
    terminal: Seq<char>,
    preview: Seq<char>,
    success: bool,
    error: Option<Seq<char>>,
) -> Seq<char> {
    let head = "["@ + now + "] SPAWN | terminal="@ + terminal + " | cmd="@ + preview;
    if success {
        head + " | OK"@
    } else {
        head + " | FAIL: "@ + match error {
            Some(e) => e,
            None => "unknown error"@,
        }
    }
}

/// The log line of one spawn event at time `now`, for an already cut preview.
pub fn spawn_log_line(now: &str, terminal: &str, preview: &str, success: bool, error: Option<&str>) -> (r: String)
    ensures
        r@ == spawn_line(now@, terminal@, preview@, success, match error { Some(e) => Some(e@), None => None }),
{
    let mut line = concat("[", now);
    line.append("] SPAWN | terminal=");
    line.append(terminal);
    line.append(" | cmd=");
    line.append(preview);
    if success {
        line.append(" | OK");
    } else {
        line.append(" | FAIL: ");
        match error {
            Some(e) => line.append(e),
            None => line.append("unknown error"),
        }
    }
    line
}

/// A line that was ended by `\n` loses a `\r` before it.
pub open spec fn strip_cr(line: Seq<char>) -> Seq<char> {
    if line.len() > 0 && line.last() == '\r' { line.drop_last() } else { line }
}

/// The lines of `s` as `str::lines` yields them: split at `\n`, a `\r` before
/// the `\n` dropped, and no empty last line after a final line ending.
pub open spec fn lines_of(s: Seq<char>) -> Seq<Seq<char>> {
    let pieces = split_on(s, '\n');
    let ended = pieces.drop_last().map_values(|p: Seq<char>| strip_cr(p));
    if pieces.last().len() == 0 { ended } else { ended.push(pieces.last()) }
}

/// The last `max` lines of a log, or all of it unchanged when it has no more.
pub open spec fn log_tail(s: Seq<char>, max: nat) -> Seq<char> {
    let ls = lines_of(s);
    if ls.len() <= max { s } else { join(ls.skip(ls.len() - max), "\n"@) }
}

fn strip_cr_str(line: &str) -> (r: &str)
    ensures
        r@ == strip_cr(line@),
{
    let n = line.unicode_len();
    if n > 0 && line.get_char(n - 1) == '\r' {
        line.substring_char(0, n - 1)
    } else {
        line
    }
}

proof fn lemma_split_nonempty(s: Seq<char>, c: char)
    ensures
        split_on(s, c).len() >= 1,
{
}

/// The lines of `content`, as `str::lines` yields them.
pub fn log_lines(content: &str) -> (r: Vec<String>)
    ensures
        r.deep_view() == lines_of(content@),
{
    let pieces = split_char(content, '\n');
    proof { lemma_split_nonempty(content@, '\n'); }
    let ghost pv = pieces.deep_view();
    let n = pieces.len();
    let mut out: Vec<String> = Vec::new();
    for i in 0..n - 1
        invariant
            n == pieces@.len(),
            n >= 1,
            pv == pieces.deep_view(),
            out.deep_view() == pv.drop_last().take(i as int).map_values(|p: Seq<char>| strip_cr(p)),
    {
        let ghost before = out.deep_view();
        let line = strip_cr_str(pieces[i].as_str());
        assert(pv[i as int] == pieces@[i as int]@);
        assert(pv.drop_last()[i as int] == pv[i as int]);
        out.push(line.to_owned());
        assert(out.deep_view() =~= before.push(strip_cr(pv[i as int])));
        assert(pv.drop_last().take(i + 1) == pv.drop_last().take(i as int).push(pv[i as int]));
        assert(out.deep_view() =~= pv.drop_last().take(i + 1).map_values(|p: Seq<char>| strip_cr(p)));
    }
    assert(pv.drop_last().take((n - 1) as int) =~= pv.drop_last());
    let last = pieces[n - 1].as_str();
    assert(last@ == pv.last());
    if !last.is_empty() {
        let ghost before = out.deep_view();
        out.push(last.to_owned());
        assert(out.deep_view() =~= before.push(pv.last()));
    }
    out
}

/// The last `max_lines` lines of a log joined by `\n`, or the log unchanged
/// when it has no more lines than that.
pub fn last_lines(content: &str, max_lines: usize) -> (r: String)
    ensures
        r@ == log_tail(content@, max_lines as nat),
{
    let lines = log_lines(content);
    if lines.len() <= max_lines {
        return content.to_owned();
    }
    let start = lines.len() - max_lines;
    let tail = strings_from(lines.as_slice(), start);
    let r = join_strings(tail.as_slice(), "\n");
    assert(tail@.map_values(|s: String| s@) =~= lines.deep_view().skip(start as int));
    r
}

} // verus!
