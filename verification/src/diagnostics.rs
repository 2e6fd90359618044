//! The editor's technical journal: one line per event, each on a single
//! line, rotated when the file grows too large. The file itself is written
//! by the program around the library; the lines and the rotation rule are
//! made here.
use vstd::prelude::*;
use crate::digest::{is_rfc3339_millis_utc, now_rfc3339_millis};
use crate::text::{append_str, chars_of, owned, push_char, replace_chars};

verus! {

/// The size from which the journal is rotated.
pub const MAX_LOG_BYTES: u64 = 1500000;

/// The journal, kept at `path`.
pub struct DiagnosticLogger {
    pub path: String,
}

/// The journal as shown to the user.
pub struct DiagnosticReport {
    pub content: String,
    pub path: String,
}

/// The line breaks a journal entry may not hold.
pub open spec fn line_breaks() -> Set<char> {
    set!['\r', '\n']
}

/// `value` on a single line: each line break becomes a space.
pub open spec fn single_line_of(value: Seq<char>) -> Seq<char> {
    replace_chars(value, line_breaks(), ' ')
}

/// A journal entry: `timestamp [LEVEL] event | details`, then a line break.
pub open spec fn entry_line(timestamp: Seq<char>, level: Seq<char>, event: Seq<char>, details: Seq<char>) -> Seq<char> {
    timestamp + " ["@ + level + "] "@ + single_line_of(event) + " | "@ + single_line_of(details) + "\n"@
}

/// `value` on a single line.
pub fn single_line(value: &str) -> (line: String)
    ensures
        line@ == single_line_of(value@),
{
    let v = chars_of(value);
    let mut line = String::new();
    let mut i: usize = 0;
    while i < v.len()
        invariant
            0 <= i <= v.len(),
            v@ == value@,
            line@ == single_line_of(value@).take(i as int),
        decreases v.len() - i,
    {
        let c = v[i];
        if c == '\r' || c == '\n' {
            push_char(&mut line, ' ');
        } else {
            push_char(&mut line, c);
        }
        assert(single_line_of(value@).take(i + 1) =~= single_line_of(value@).take(i as int).push(
            single_line_of(value@)[i as int],
        ));
        i += 1;
    }
    assert(single_line_of(value@).take(v.len() as int) =~= single_line_of(value@));
    line
}

/// The journal entry for an event at `timestamp`.
pub fn entry(timestamp: &str, level: &str, event: &str, details: &str) -> (line: String)
    ensures
        line@ == entry_line(timestamp@, level@, event@, details@),
{
    let mut line = owned(timestamp);
    append_str(&mut line, " [");
    append_str(&mut line, level);
    append_str(&mut line, "] ");
    let e = single_line(event);
    append_str(&mut line, e.as_str());
    append_str(&mut line, " | ");
    let d = single_line(details);
    append_str(&mut line, d.as_str());
    push_char(&mut line, '\n');
    proof {
        reveal_strlit(" [");
        reveal_strlit("] ");
        reveal_strlit(" | ");
        reveal_strlit("\n");
    }
    assert(line@ =~= entry_line(timestamp@, level@, event@, details@));
    line
}

/// Whether a journal of `size` bytes is rotated before the next entry.
pub fn needs_rotation(size: u64) -> (rotate: bool)
    ensures
        rotate == (size >= MAX_LOG_BYTES),
{
    size >= MAX_LOG_BYTES
}

impl DiagnosticLogger {
    /// The journal kept at `path`.
    pub fn new(path: String) -> (logger: Self)
        ensures
            logger.path@ == path@,
    {
        DiagnosticLogger { path }
    }

    /// The line recording an informational event now.
    pub fn info(&self, event: &str, details: &str) -> (line: String)
        ensures
            exists|timestamp: Seq<char>|
                is_rfc3339_millis_utc(timestamp) && line@ == entry_line(timestamp, "INFO"@, event@, details@),
            line@.len() > 0 && line@.last() == '\n' && no_line_break(line@.drop_last()),
    {
        let timestamp = now_rfc3339_millis();
        proof {
            lemma_timestamp_single_line(timestamp@);
            reveal_strlit("INFO");
            law_entries_are_single_lines(timestamp@, "INFO"@, event@, details@);
        }
        entry(timestamp.as_str(), "INFO", event, details)
    }

    /// The line recording an error now.
    pub fn error(&self, event: &str, details: &str) -> (line: String)
        ensures
            exists|timestamp: Seq<char>|
                is_rfc3339_millis_utc(timestamp) && line@ == entry_line(timestamp, "ERROR"@, event@, details@),
            line@.len() > 0 && line@.last() == '\n' && no_line_break(line@.drop_last()),
    {
        let timestamp = now_rfc3339_millis();
        proof {
            lemma_timestamp_single_line(timestamp@);
            reveal_strlit("ERROR");
            law_entries_are_single_lines(timestamp@, "ERROR"@, event@, details@);
        }
        entry(timestamp.as_str(), "ERROR", event, details)
    }

    /// The journal as shown: its content, empty when the file does not
    /// exist yet.
    pub fn report(&self, content: Option<String>) -> (report: DiagnosticReport)
        ensures
            report.path@ == self.path@,
            report.content@ == match content {
                Some(c) => c@,
                None => Seq::empty(),
            },
    {
        DiagnosticReport {
            content: match content {
                Some(c) => c,
                None => String::new(),
            },
            path: self.path.clone(),
        }
    }
}

/// Whether `s` holds no line break.
pub open spec fn no_line_break(s: Seq<char>) -> bool {
    forall|i: int| 0 <= i < s.len() ==> !line_breaks().contains(#[trigger] s[i])
}

/// A time in RFC 3339 form holds no line break.
proof fn lemma_timestamp_single_line(t: Seq<char>)
    requires
        is_rfc3339_millis_utc(t),
    ensures
        no_line_break(t),
{
    let p = t.len() - 20;
    assert forall|i: int| 0 <= i < t.len() implies !line_breaks().contains(#[trigger] t[i]) by {
        if i < p {
            assert(crate::digest::is_year_char(t[i]));
        } else {
            assert(p <= i < p + 20);
        }
    }
}

/// Each journal entry takes exactly one line, whatever the event and its
/// details hold: its only line break is the one that ends it.
pub proof fn law_entries_are_single_lines(timestamp: Seq<char>, level: Seq<char>, event: Seq<char>, details: Seq<char>)
    requires
        no_line_break(timestamp),
        no_line_break(level),
    ensures
        ({
            let line = entry_line(timestamp, level, event, details);
            &&& line.len() > 0
            &&& line.last() == '\n'
            &&& no_line_break(line.drop_last())
        }),
{
    reveal_strlit(" [");
    reveal_strlit("] ");
    reveal_strlit(" | ");
    reveal_strlit("\n");
    let line = entry_line(timestamp, level, event, details);
    let body = timestamp + " ["@ + level + "] "@ + single_line_of(event) + " | "@ + single_line_of(details);
    assert(line =~= body + "\n"@);
    assert(line.drop_last() =~= body);
    assert(no_line_break(single_line_of(event)));
    assert(no_line_break(single_line_of(details)));
    assert(no_line_break(" ["@));
    assert(no_line_break("] "@));
    assert(no_line_break(" | "@));
    assert forall|i: int| 0 <= i < body.len() implies !line_breaks().contains(#[trigger] body[i]) by {
        let a = timestamp;
        let b = a + " ["@;
        let c = b + level;
        let d = c + "] "@;
        let e = d + single_line_of(event);
        let f = e + " | "@;
        if i < a.len() {
        } else if i < b.len() {
            assert(body[i] == " ["@[i - a.len()]);
        } else if i < c.len() {
            assert(body[i] == level[i - b.len()]);
        } else if i < d.len() {
            assert(body[i] == "] "@[i - c.len()]);
        } else if i < e.len() {
            assert(body[i] == single_line_of(event)[i - d.len()]);
        } else if i < f.len() {
            assert(body[i] == " | "@[i - e.len()]);
        } else {
            assert(body[i] == single_line_of(details)[i - f.len()]);
        }
    }
}

} // verus!
