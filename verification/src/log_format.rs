//! The layout of the supervisor's log lines.
use vstd::prelude::*;
use vstd::string::*;

use crate::logger::Level;
use crate::text::{pad_spec, spaces};

verus! {

/// The colors of the log levels, from error to trace.
pub const PALETTE: &'static str = "9;3;10;12;5";

/// The five-character label of a level.
pub open spec fn level_label(level: Level) -> Seq<char> {
    match level {
        Level::Error => "ERROR"@,
        Level::Warn => "WARN "@,
        Level::Info => "INFO "@,
        Level::Debug => "DEBUG"@,
        Level::Trace => "TRACE"@,
    }
}

/// The label of a level, padded to five characters.
pub fn map_level(level: Level) -> (s: &'static str)
    ensures
        s@ == level_label(level),
{
    match level {
        Level::Error => "ERROR",
        Level::Warn => "WARN ",
        Level::Info => "INFO ",
        Level::Debug => "DEBUG",
        Level::Trace => "TRACE",
    }
}

/// The widest target seen so far, after seeing `target`: targets are measured
/// in bytes, and the width never shrinks.
pub fn max_target_width(max_width: usize, target: &str) -> (w: usize)
    ensures
        w == if max_width < target.len() { target.len() } else { max_width },
        w >= max_width,
{
    if max_width < target.len() {
        target.len()
    } else {
        max_width
    }
}

/// Left-aligns `s` in a field of `width` characters, filling with spaces.
pub fn pad(s: &str, width: usize) -> (r: String)
    ensures
        r@ == pad_spec(s@, width as nat),
{
    let mut r = s.to_owned();
    let n = s.unicode_len();
    let mut i: usize = n;
    while i < width
        invariant
            n == s@.len(),
            i <= width || i == n,
            i >= n,
            r@ == s@ + spaces((i - n) as nat),
        decreases width - i,
    {
        proof { reveal_strlit(" "); }
        r.append(" ");
        assert(r@ =~= s@ + spaces((i + 1 - n) as nat));
        i = i + 1;
    }
    assert(r@ =~= pad_spec(s@, width as nat));
    r
}

/// A padded field is at least `width` characters wide, starts with the
/// text, and is filled with spaces after it.
pub proof fn lemma_pad_fills_width(s: Seq<char>, width: nat)
    ensures
        pad_spec(s, width).len() == if s.len() < width { width } else { s.len() },
        pad_spec(s, width).take(s.len() as int) == s,
        forall|i: int| s.len() <= i < pad_spec(s, width).len() ==> #[trigger] pad_spec(s, width)[i] == ' ',
{
    assert(pad_spec(s, width).take(s.len() as int) =~= s);
}

/// A log line from its parts: the timestamp, the level's text, the target's
/// text and the message after `>`, each after one space.
pub open spec fn line_of(timestamp: Seq<char>, level: Seq<char>, target: Seq<char>, message: Seq<char>) -> Seq<char> {
    " "@ + timestamp + " "@ + level + " "@ + target + " > "@ + message
}

/// A log line: the timestamp, the level's label, the target left-aligned in
/// `width` characters, and the message after `>`, each after one space.
pub open spec fn record_line(timestamp: Seq<char>, level: Level, target: Seq<char>, width: nat, message: Seq<char>) -> Seq<char> {
    line_of(timestamp, level_label(level), pad_spec(target, width), message)
}

/// Lays out a log line from its parts, which may carry terminal styling.
pub fn render_line(timestamp: &str, level: &str, target: &str, message: &str) -> (s: String)
    ensures
        s@ == line_of(timestamp@, level@, target@, message@),
{
    let mut s = String::from_str(" ");
    s.append(timestamp);
    s.append(" ");
    s.append(level);
    s.append(" ");
    s.append(target);
    s.append(" > ");
    s.append(message);
    s
}

/// Lays out one log line.
pub fn render_record(timestamp: &str, level: Level, target: &str, width: usize, message: &str) -> (s: String)
    ensures
        s@ == record_line(timestamp@, level, target@, width as nat, message@),
{
    let padded = pad(target, width);
    render_line(timestamp, map_level(level), padded.as_str(), message)
}

} // verus!
