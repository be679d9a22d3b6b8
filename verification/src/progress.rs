//! The progress report persisted beside every download job: a percentage
//! clamped to 0–100 and a human-readable phase message, serialized as one
//! small JSON object. The orchestrator and the downloader subprocess both
//! write this record (always by write-temp-then-rename, so a reader never
//! sees a torn file); the status endpoint re-reads it on every poll.

use vstd::prelude::*;

use crate::text::{dec_digits, push_char, push_dec};

verus! {

/// A job's persisted progress record.
#[derive(Debug)]
pub struct ProgressReport {
    pub progress: u8,
    pub message: String,
}

impl ProgressReport {
    /// Builds a report, clamping the percentage to at most 100.
    pub fn new(progress: u8, message: &str) -> (r: Self)
        ensures
            r.progress == if progress > 100 {
                100u8
            } else {
                progress
            },
            r.message@ == message@,
    {
        ProgressReport {
            progress: if progress > 100 {
                100
            } else {
                progress
            },
            message: String::from_str(message),
        }
    }
}

/// Lowercase hex digit.
pub open spec fn hex_char(d: nat) -> char {
    if d < 10 {
        crate::text::digit_char(d)
    } else if d == 10 {
        'a'
    } else if d == 11 {
        'b'
    } else if d == 12 {
        'c'
    } else if d == 13 {
        'd'
    } else if d == 14 {
        'e'
    } else {
        'f'
    }
}

/// How one character appears inside a JSON string literal: quotes and
/// backslashes are escaped, common control characters get their short
/// escapes, other control characters a `\u00XX` escape, and everything
/// else stands as itself.
pub open spec fn json_escape_char(c: char) -> Seq<char> {
    if c == '"' {
        seq!['\\', '"']
    } else if c == '\\' {
        seq!['\\', '\\']
    } else if c == '\n' {
        seq!['\\', 'n']
    } else if c == '\r' {
        seq!['\\', 'r']
    } else if c == '\t' {
        seq!['\\', 't']
    } else if (c as u32) < 32 {
        seq!['\\', 'u', '0', '0', hex_char((c as u32 / 16) as nat), hex_char((c as u32 % 16) as nat)]
    } else {
        seq![c]
    }
}

/// A whole string escaped for a JSON literal.
pub open spec fn json_escaped(s: Seq<char>) -> Seq<char>
    decreases s.len(),
{
    if s.len() == 0 {
        Seq::empty()
    } else {
        json_escape_char(s[0]) + json_escaped(s.drop_first())
    }
}

proof fn lemma_json_escaped_push(s: Seq<char>, c: char)
    ensures
        json_escaped(s.push(c)) == json_escaped(s) + json_escape_char(c),
    decreases s.len(),
{
    if s.len() == 0 {
        assert(s.push(c)[0] == c);
        assert(s.push(c).drop_first() =~= Seq::<char>::empty());
        assert(json_escaped(s.push(c)) == json_escape_char(c) + json_escaped(
            Seq::<char>::empty(),
        ));
        assert(json_escape_char(c) + Seq::<char>::empty() =~= json_escape_char(c));
        assert(json_escaped(s) + json_escape_char(c) =~= json_escape_char(c));
    } else {
        assert(s.push(c).drop_first() =~= s.drop_first().push(c));
        lemma_json_escaped_push(s.drop_first(), c);
        assert(json_escaped(s.push(c)) =~= json_escaped(s) + json_escape_char(c));
    }
}

/// The exact serialized form of a report.
pub open spec fn spec_encode_report(progress: u8, message: Seq<char>) -> Seq<char> {
    "{\"progress\":"@ + dec_digits(progress as nat) + ",\"message\":\""@ + json_escaped(message)
        + "\"}"@
}

fn hex_of(d: u32) -> (c: char)
    requires
        d < 16,
    ensures
        c == hex_char(d as nat),
{
    if d < 10 {
        crate::text::digit_of(d as u64)
    } else if d == 10 {
        'a'
    } else if d == 11 {
        'b'
    } else if d == 12 {
        'c'
    } else if d == 13 {
        'd'
    } else if d == 14 {
        'e'
    } else {
        'f'
    }
}

/// Appends the JSON-escaped form of `s`.
pub(crate) fn push_escaped(out: &mut String, s: &str)
    ensures
        final(out)@ == old(out)@ + json_escaped(s@),
{
    let n: usize = s.unicode_len();
    let mut i: usize = 0;
    while i < n
        invariant
            i <= n,
            n == s@.len(),
            out@ == old(out)@ + json_escaped(s@.take(i as int)),
        decreases n - i,
    {
        let c = s.get_char(i);
        let u = c as u32;
        if c == '"' {
            push_char(out, '\\');
            push_char(out, '"');
        } else if c == '\\' {
            push_char(out, '\\');
            push_char(out, '\\');
        } else if c == '\n' {
            push_char(out, '\\');
            push_char(out, 'n');
        } else if c == '\r' {
            push_char(out, '\\');
            push_char(out, 'r');
        } else if c == '\t' {
            push_char(out, '\\');
            push_char(out, 't');
        } else if u < 32 {
            push_char(out, '\\');
            push_char(out, 'u');
            push_char(out, '0');
            push_char(out, '0');
            push_char(out, hex_of(u / 16));
            push_char(out, hex_of(u % 16));
        } else {
            push_char(out, c);
        }
        proof {
            lemma_json_escaped_push(s@.take(i as int), s@[i as int]);
            assert(s@.take(i + 1) =~= s@.take(i as int).push(s@[i as int]));
            assert(out@ =~= old(out)@ + json_escaped(s@.take(i + 1)));
        }
        i = i + 1;
    }
    proof {
        assert(s@.take(n as int) =~= s@);
    }
}

/// Serializes a report to the JSON text that is written to its file.
pub fn encode_progress_report(report: &ProgressReport) -> (out: String)
    ensures
        out@ == spec_encode_report(report.progress, report.message@),
{
    let mut out = String::from_str("{\"progress\":");
    push_dec(&mut out, report.progress as u64);
    out.append(",\"message\":\"");
    push_escaped(&mut out, report.message.as_str());
    out.append("\"}");
    proof {
        assert(out@ =~= spec_encode_report(report.progress, report.message@));
    }
    out
}

/// The report written when a job fails after its subprocess ran: the file
/// is forced to 100% with a fixed failure message.
pub fn failure_report() -> (r: ProgressReport)
    ensures
        r.progress == 100,
        r.message@ == "Download failed"@,
{
    ProgressReport::new(100, "Download failed")
}

/// The report written when a channel-targeted job fails before any
/// download starts, because the channel-URL resolution failed.
pub fn channel_lookup_failure_report() -> (r: ProgressReport)
    ensures
        r.progress == 100,
        r.message@ == "Channel lookup failed"@,
{
    ProgressReport::new(100, "Channel lookup failed")
}

} // verus!
