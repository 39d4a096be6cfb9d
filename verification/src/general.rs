//! The line tokenizer and the full-line parser. A line breaks into exactly
//! four fields — timestamp, session token, command, payload — with the
//! command duplicated into the payload when it carries none. The command
//! then dispatches: `Query` stores its payload, `Connect` hands it to the
//! auth sub-parser, and every accepted line gets its timestamp, session
//! field, dataset and the fixed MySQL metadata.

use vstd::prelude::*;
use vstd::string::*;

use crate::auth::parse_connection;
use crate::auth::spec_connect_accepts;
use crate::auth::spec_parse_connection;
use crate::ext::parse_rfc3339_millis;
use crate::ext::rfc3339_epoch_millis;
use crate::numbers::parse_u32;
use crate::numbers::u32_parse_ok;
use crate::numbers::u32_parse_value;
use crate::record::FieldV;
use crate::record::FieldValue;
use crate::record::LogRecord;
use crate::record::RecordV;
use crate::record::RejectKind;
use crate::record::Rejected;
use crate::text::str_eq;
use crate::text::trim_spec;
use crate::text::trim_str;

verus! {

/// First position at or after `i` that does not hold a space, or the end.
pub open spec fn run_start(s: Seq<char>, i: int) -> int
    decreases s.len() - i,
{
    if 0 <= i < s.len() && s[i] == ' ' {
        run_start(s, i + 1)
    } else {
        i
    }
}

/// First position at or after `i` that holds a space, or the end.
pub open spec fn run_end(s: Seq<char>, i: int) -> int
    decreases s.len() - i,
{
    if 0 <= i < s.len() && s[i] != ' ' {
        run_end(s, i + 1)
    } else {
        i
    }
}

/// The four logical fields of a line, split on runs of spaces: the first
/// three space-free tokens, then the remainder after the third, trimmed, as
/// the payload. A token at the very end of the line is never cut off by a
/// space, so a line of three tokens yields its third twice — command and
/// payload — and a line of fewer yields fewer than four fields.
pub open spec fn general_fields(s: Seq<char>) -> Seq<Seq<char>> {
    let a1 = run_start(s, 0);
    let b1 = run_end(s, a1);
    let a2 = run_start(s, b1);
    let b2 = run_end(s, a2);
    let a3 = run_start(s, b2);
    let b3 = run_end(s, a3);
    if b1 >= s.len() {
        seq![]
    } else if b2 >= s.len() {
        seq![s.subrange(a1, b1)]
    } else if b3 >= s.len() {
        let t = trim_spec(s.subrange(a3, s.len() as int));
        seq![s.subrange(a1, b1), s.subrange(a2, b2), t, t]
    } else {
        seq![
            s.subrange(a1, b1),
            s.subrange(a2, b2),
            s.subrange(a3, b3),
            trim_spec(s.subrange(b3, s.len() as int)),
        ]
    }
}

proof fn lemma_run_start_bounds(s: Seq<char>, i: int)
    requires
        0 <= i <= s.len(),
    ensures
        i <= run_start(s, i) <= s.len(),
    decreases s.len() - i,
{
    if 0 <= i < s.len() && s[i] == ' ' {
        lemma_run_start_bounds(s, i + 1);
    }
}

proof fn lemma_run_end_bounds(s: Seq<char>, i: int)
    requires
        0 <= i <= s.len(),
    ensures
        i <= run_end(s, i) <= s.len(),
    decreases s.len() - i,
{
    if 0 <= i < s.len() && s[i] != ' ' {
        lemma_run_end_bounds(s, i + 1);
    }
}

fn skip_spaces(s: &str, from: usize) -> (r: usize)
    requires
        from <= s@.len(),
    ensures
        r == run_start(s@, from as int),
        from <= r <= s@.len(),
{
    let n = s.unicode_len();
    let mut i: usize = from;
    while i < n && s.get_char(i) == ' '
        invariant
            from <= i <= n,
            n == s@.len(),
            run_start(s@, from as int) == run_start(s@, i as int),
        decreases n - i,
    {
        i += 1;
    }
    i
}

fn scan_run(s: &str, from: usize) -> (r: usize)
    requires
        from <= s@.len(),
    ensures
        r == run_end(s@, from as int),
        from <= r <= s@.len(),
{
    let n = s.unicode_len();
    let mut i: usize = from;
    while i < n && s.get_char(i) != ' '
        invariant
            from <= i <= n,
            n == s@.len(),
            run_end(s@, from as int) == run_end(s@, i as int),
        decreases n - i,
    {
        i += 1;
    }
    i
}

/// Splits a raw line into its logical fields. Exactly four fields come back
/// only when the line carries a timestamp, a session token and a command;
/// any other count tells the caller the line is not this format.
pub fn extract_general_fields(message: &str) -> (fields: Vec<String>)
    ensures
        fields.deep_view() == general_fields(message@),
{
    let n = message.unicode_len();
    let a1 = skip_spaces(message, 0);
    let b1 = scan_run(message, a1);
    let a2 = skip_spaces(message, b1);
    let b2 = scan_run(message, a2);
    let a3 = skip_spaces(message, b2);
    let b3 = scan_run(message, a3);
    let mut fields: Vec<String> = Vec::new();
    if b1 == n {
        proof {
            assert(fields.deep_view() =~= general_fields(message@));
        }
        return fields;
    }
    let t1 = String::from_str(message.substring_char(a1, b1));
    if b2 == n {
        fields.push(t1);
        proof {
            assert(fields.deep_view() =~= general_fields(message@));
        }
        return fields;
    }
    let t2 = String::from_str(message.substring_char(a2, b2));
    if b3 == n {
        let t = trim_str(message.substring_char(a3, n));
        let t_again = t.clone();
        fields.push(t1);
        fields.push(t2);
        fields.push(t);
        fields.push(t_again);
        proof {
            assert(fields.deep_view() =~= general_fields(message@));
        }
        return fields;
    }
    let t3 = String::from_str(message.substring_char(a3, b3));
    let t4 = trim_str(message.substring_char(b3, n));
    fields.push(t1);
    fields.push(t2);
    fields.push(t3);
    fields.push(t4);
    proof {
        assert(fields.deep_view() =~= general_fields(message@));
    }
    fields
}

/// The cheap discriminator: this parser applies only to a line whose first
/// character is an ASCII digit.
pub open spec fn first_char_digit(m: Seq<char>) -> bool {
    m.len() > 0 && 48 <= m[0] as u32 <= 57
}

/// Whether the line parser accepts a record's raw line.
pub open spec fn spec_general_accepts(m: Seq<char>) -> bool {
    &&& first_char_digit(m)
    &&& general_fields(m).len() == 4
    &&& rfc3339_epoch_millis(general_fields(m)[0]) is Some
}

/// Why a line is rejected: not this format, wrong field count, or a
/// timestamp that does not read as RFC 3339.
pub open spec fn spec_general_reject_kind(m: Seq<char>) -> RejectKind {
    if !first_char_digit(m) {
        RejectKind::NotApplicable
    } else if general_fields(m).len() != 4 {
        RejectKind::FieldCountMismatch
    } else {
        RejectKind::TimestampUnparsable
    }
}

/// The record an accepted line produces: the command dispatched (`Query`
/// stores its payload; `Connect` runs the sub-parser, whose rejection leaves
/// the record as it was; `Quit` and unknown commands store nothing), then
/// the creation timestamp, the session field — numeric `session.id` when the
/// token reads as a `u32`, textual `session.name` otherwise — the dataset,
/// and the fixed MySQL service metadata.
pub open spec fn spec_parse_general(v: RecordV) -> RecordV
    recommends
        spec_general_accepts(v.message),
{
    let f = general_fields(v.message);
    let ts = rfc3339_epoch_millis(f[0])->Some_0;
    let v1 = if f[2] == "Query"@ {
        RecordV { fields: v.fields.insert("database.query"@, FieldV::Text(f[3])), ..v }
    } else if f[2] == "Connect"@ && spec_connect_accepts(f[3]) {
        spec_parse_connection(v, f[3])
    } else {
        v
    };
    let v2 = RecordV { event_created: Some(ts), ..v1 };
    let session = if u32_parse_ok(f[1]) {
        v2.fields.insert("session.id"@, FieldV::U32(u32_parse_value(f[1]) as u32))
    } else {
        v2.fields.insert("session.name"@, FieldV::Text(f[1]))
    };
    let v3 = RecordV {
        fields: session.insert("event.dataset"@, FieldV::Text(f[2])),
        service: "MySQL"@,
        product: "MySQL"@,
        category: "Database"@,
        ..v2
    };
    v3
}

/// Whether this parser applies to the record's raw line: the first
/// character is an ASCII digit.
pub fn valid_general_log(log: &LogRecord) -> (r: bool)
    ensures
        r == first_char_digit(log@.message),
{
    let m = log.message();
    m.unicode_len() > 0 && {
        let c = m.get_char(0) as u32;
        48 <= c && c <= 57
    }
}

/// Parses one line of a MySQL general query log into the record. A
/// rejection of any kind hands the record back exactly as it was given, so
/// the caller may try another format parser.
pub fn parse_general_log(log: LogRecord) -> (r: Result<LogRecord, Rejected>)
    ensures
        r is Ok <==> spec_general_accepts(log@.message),
        r matches Ok(l) ==> l@ == spec_parse_general(log@),
        r matches Err(rej) ==> rej.record == log && rej.kind == spec_general_reject_kind(
            log@.message,
        ),
{
    if !valid_general_log(&log) {
        return Err(Rejected { kind: RejectKind::NotApplicable, record: log });
    }
    let fields = extract_general_fields(log.message());
    if fields.len() != 4 {
        return Err(Rejected { kind: RejectKind::FieldCountMismatch, record: log });
    }
    let ts = match parse_rfc3339_millis(fields[0].as_str()) {
        Some(t) => t,
        None => {
            return Err(Rejected { kind: RejectKind::TimestampUnparsable, record: log });
        },
    };
    let ghost f = general_fields(log@.message);
    proof {
        assert(forall|i: int| 0 <= i < fields@.len() ==> fields.deep_view()[i] == fields@[i]@);
    }
    let mut log = log;
    if str_eq(fields[2].as_str(), "Query") {
        log.add_field("database.query", FieldValue::Text(fields[3].clone()));
    } else if str_eq(fields[2].as_str(), "Connect") {
        log = match parse_connection(log, fields[3].as_str()) {
            Ok(l) => l,
            Err(rej) => rej.record,
        };
    }
    log.set_event_created(ts);
    match parse_u32(fields[1].as_str()) {
        Some(sid) => {
            log.add_field("session.id", FieldValue::U32(sid));
        },
        None => {
            log.add_field("session.name", FieldValue::Text(fields[1].clone()));
        },
    }
    log.add_field("event.dataset", FieldValue::Text(fields[2].clone()));
    log.set_service(String::from_str("MySQL"));
    log.set_product(String::from_str("MySQL"));
    log.set_category(String::from_str("Database"));
    Ok(log)
}

} // verus!

