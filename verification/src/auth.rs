//! The connection/auth sub-parser: given the payload of a `Connect` command,
//! it extracts user, source address, database and protocol, classifies the
//! login as local or remote, and attaches a typed authentication event.
//! All field writes are deferred until the whole payload is validated, so a
//! rejection leaves the record exactly as it was given.

use vstd::prelude::*;
use vstd::string::*;

use crate::ext::ip_literal;
use crate::ext::is_ip_literal;
use crate::record::AuthEvent;
use crate::record::AuthEventV;
use crate::record::AuthOutcome;
use crate::record::FieldV;
use crate::record::FieldValue;
use crate::record::LogRecord;
use crate::record::LoginIdentity;
use crate::record::LoginIdentityV;
use crate::record::RecordV;
use crate::record::RejectKind;
use crate::record::Rejected;
use crate::record::outcome_text;
use crate::text::split_char;
use crate::text::split_on;
use crate::text::str_eq;

verus! {

/// A token of at least two characters loses one leading and one trailing
/// straight quote; anything else is kept whole.
pub open spec fn strip_quotes_spec(s: Seq<char>) -> Seq<char> {
    if s.len() >= 2 && s[0] == '\'' && s[s.len() - 1] == '\'' {
        s.subrange(1, s.len() - 1)
    } else {
        s
    }
}

fn strip_quotes(s: &str) -> (r: String)
    ensures
        r@ == strip_quotes_spec(s@),
{
    let n = s.unicode_len();
    if n >= 2 && s.get_char(0) == '\'' && s.get_char(n - 1) == '\'' {
        String::from_str(s.substring_char(1, n - 1))
    } else {
        String::from_str(s)
    }
}

/// The pieces of a `user@address` token.
pub open spec fn ua_parts(t: Seq<char>) -> Seq<Seq<char>> {
    split_char(t, '@')
}

/// A token decomposes only when it holds exactly one `@` separator.
pub open spec fn ua_valid(t: Seq<char>) -> bool {
    ua_parts(t).len() == 2
}

/// The user piece, quotes stripped.
pub open spec fn ua_user(t: Seq<char>) -> Seq<char> {
    strip_quotes_spec(ua_parts(t)[0])
}

/// The address piece, quotes stripped.
pub open spec fn ua_address(t: Seq<char>) -> Seq<char> {
    strip_quotes_spec(ua_parts(t)[1])
}

/// Decomposes a `user@address` token into its quoted-stripped user and
/// address, rejecting a token with no `@` separator or with several.
pub fn parse_user(content: &str) -> (r: Result<(String, String), ()>)
    ensures
        r is Ok <==> ua_valid(content@),
        r matches Ok(p) ==> p.0@ == ua_user(content@) && p.1@ == ua_address(content@),
{
    let parts = split_on(content, '@');
    if parts.len() != 2 {
        return Err(());
    }
    let user = strip_quotes(parts[0].as_str());
    let address = strip_quotes(parts[1].as_str());
    proof {
        assert(parts@[0]@ == ua_parts(content@)[0]);
        assert(parts@[1]@ == ua_parts(content@)[1]);
    }
    Ok((user, address))
}

/// The locality rule: exactly the texts `localhost` and `127.0.0.1` are
/// local; every other address is remote. A deliberate textual comparison,
/// not a loopback-range test.
pub open spec fn is_local_address(a: Seq<char>) -> bool {
    a == "localhost"@ || a == "127.0.0.1"@
}

fn local_address(a: &str) -> (r: bool)
    ensures
        r == is_local_address(a@),
{
    str_eq(a, "localhost") || str_eq(a, "127.0.0.1")
}

/// The identity a decomposed token denotes, under the locality rule. The
/// domain is always the protocol label `mysql`.
pub open spec fn login_identity_of(user: Seq<char>, addr: Seq<char>) -> LoginIdentityV {
    if is_local_address(addr) {
        LoginIdentityV::Local { user_name: user, domain: "mysql"@ }
    } else {
        LoginIdentityV::Remote { user_name: user, domain: "mysql"@, source_address: addr }
    }
}

/// The hostname the event is resolved against: an existing textual
/// `host.hostname` field, or the literal `MySQL`.
pub open spec fn hostname_of(v: RecordV) -> Seq<char> {
    if v.fields.contains_key("host.hostname"@) {
        match v.fields["host.hostname"@] {
            FieldV::Text(h) => h,
            _ => "MySQL"@,
        }
    } else {
        "MySQL"@
    }
}

fn resolve_hostname(log: &LogRecord) -> (r: String)
    ensures
        r@ == hostname_of(log@),
{
    match log.field("host.hostname") {
        Some(FieldValue::Text(h)) => h.clone(),
        _ => String::from_str("MySQL"),
    }
}

/// The normal connect shape: `<user>@<address> on <database> using
/// <protocol>`, exactly five tokens.
pub open spec fn shape_normal(t: Seq<Seq<char>>) -> bool {
    t.len() == 5 && t[1] == "on"@ && t[3] == "using"@
}

/// The access-denied shape: at least five tokens, opening with the words
/// `Access denied`; the fifth token is the quoted `'<user>'@'<address>'`.
pub open spec fn shape_denied(t: Seq<Seq<char>>) -> bool {
    t.len() >= 5 && t[0] == "Access"@ && t[1] == "denied"@
}

/// The `user@address` token of a payload in a recognized shape.
pub open spec fn ua_token(t: Seq<Seq<char>>) -> Seq<char> {
    if shape_normal(t) {
        t[0]
    } else {
        t[4]
    }
}

/// Whether the sub-parser accepts a payload: one of the two shapes, with a
/// decomposable `user@address` token. Acceptance depends on the payload
/// alone, never on the record.
pub open spec fn spec_connect_accepts(c: Seq<char>) -> bool {
    let t = split_char(c, ' ');
    (shape_normal(t) || shape_denied(t)) && ua_valid(ua_token(t))
}

/// Why a payload is rejected.
pub open spec fn spec_connect_reject_kind(c: Seq<char>) -> RejectKind {
    let t = split_char(c, ' ');
    if shape_normal(t) || shape_denied(t) {
        RejectKind::UserAddressMalformed
    } else {
        RejectKind::FieldCountMismatch
    }
}

/// The record an accepted payload produces. A normal connect writes the
/// database name (only when non-empty) and the protocol, and carries outcome
/// `Establish`; an access-denied payload writes neither and carries `Fail`.
/// Both write the user name, the source IP when the address is an IP
/// literal, and attach the authentication event.
pub open spec fn spec_parse_connection(v: RecordV, c: Seq<char>) -> RecordV
    recommends
        spec_connect_accepts(c),
{
    let t = split_char(c, ' ');
    let user = ua_user(ua_token(t));
    let addr = ua_address(ua_token(t));
    let outcome = if shape_normal(t) {
        AuthOutcome::Establish
    } else {
        AuthOutcome::Fail
    };
    let f0 = if shape_normal(t) && t[2].len() > 0 {
        v.fields.insert("database.name"@, FieldV::Text(t[2]))
    } else {
        v.fields
    };
    let f1 = if ip_literal(addr) {
        f0.insert("source.ip"@, FieldV::Ip(addr))
    } else {
        f0
    };
    let f2 = f1.insert("user.name"@, FieldV::User(user));
    let f3 = if shape_normal(t) {
        f2.insert("network.protocol"@, FieldV::Text(t[4]))
    } else {
        f2
    };
    let ev = AuthEventV {
        hostname: hostname_of(v),
        outcome,
        login: login_identity_of(user, addr),
    };
    let f4 = f3.insert("event.outcome"@, FieldV::Text(outcome_text(outcome)));
    RecordV { fields: f4, event: Some(ev), ..v }
}

/// One spec-level run of the sub-parser: the filled record, or on rejection
/// the record unchanged.
pub open spec fn sub_parse(v: RecordV, c: Seq<char>) -> Result<RecordV, RecordV> {
    if spec_connect_accepts(c) {
        Ok(spec_parse_connection(v, c))
    } else {
        Err(v)
    }
}

/// Law: the sub-parser is a pure function with an all-or-nothing rejection.
/// A rejected record comes back unchanged, and running the sub-parser again
/// on that record with the same payload yields the same rejection and the
/// same unchanged record.
pub proof fn lemma_sub_parser_idempotent(v: RecordV, c: Seq<char>)
    requires
        sub_parse(v, c) is Err,
    ensures
        sub_parse(v, c) == Err::<RecordV, RecordV>(v),
        sub_parse(sub_parse(v, c)->Err_0, c) == sub_parse(v, c),
{
}

/// Parses the payload of a `Connect` command (normal connect or
/// access-denied failure) and fills the record; a rejection hands the record
/// back untouched. A plain successful connect is tagged `Establish`: it
/// implies no credential check of its own.
pub fn parse_connection(log: LogRecord, content: &str) -> (r: Result<LogRecord, Rejected>)
    ensures
        r is Ok <==> spec_connect_accepts(content@),
        r matches Ok(l) ==> l@ == spec_parse_connection(log@, content@),
        r matches Err(rej) ==> rej.record == log && rej.kind == spec_connect_reject_kind(
            content@,
        ),
        sub_parse(log@, content@) == (match r {
            Ok(l) => Ok::<RecordV, RecordV>(l@),
            Err(rej) => Err::<RecordV, RecordV>(rej.record@),
        }),
{
    let toks = split_on(content, ' ');
    let ghost t = split_char(content@, ' ');
    proof {
        assert(forall|i: int| 0 <= i < toks@.len() ==> toks.deep_view()[i] == toks@[i]@);
    }
    let normal = toks.len() == 5 && str_eq(toks[1].as_str(), "on") && str_eq(
        toks[3].as_str(),
        "using",
    );
    let denied = !normal && toks.len() >= 5 && str_eq(toks[0].as_str(), "Access") && str_eq(
        toks[1].as_str(),
        "denied",
    );
    proof {
        assert(normal == shape_normal(t));
        assert(denied == (!shape_normal(t) && shape_denied(t)));
    }
    if !normal && !denied {
        return Err(Rejected { kind: RejectKind::FieldCountMismatch, record: log });
    }
    let ua = if normal {
        toks[0].as_str()
    } else {
        toks[4].as_str()
    };
    match parse_user(ua) {
        Err(()) => Err(Rejected { kind: RejectKind::UserAddressMalformed, record: log }),
        Ok((user, address)) => {
            let mut log = log;
            let hostname = resolve_hostname(&log);
            if normal && !toks[2].as_str().is_empty() {
                log.add_field("database.name", FieldValue::Text(toks[2].clone()));
            }
            if is_ip_literal(address.as_str()) {
                log.add_field("source.ip", FieldValue::Ip(address.clone()));
            }
            log.add_field("user.name", FieldValue::User(user.clone()));
            if normal {
                log.add_field("network.protocol", FieldValue::Text(toks[4].clone()));
            }
            let outcome = if normal {
                AuthOutcome::Establish
            } else {
                AuthOutcome::Fail
            };
            let login = if local_address(address.as_str()) {
                LoginIdentity::Local { user_name: user, domain: String::from_str("mysql") }
            } else {
                LoginIdentity::Remote {
                    user_name: user,
                    domain: String::from_str("mysql"),
                    source_address: address,
                }
            };
            let ev = AuthEvent { hostname, outcome, login };
            log.set_event(ev);
            Ok(log)
        },
    }
}

} // verus!
