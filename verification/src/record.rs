//! The normalized event record that parsing fills: named fields, fixed
//! service/product/category metadata, a creation timestamp and an optional
//! authentication event. Its view is a `Map` from field names to field
//! values, so contracts can state every write exactly.

use vstd::prelude::*;
use vstd::string::*;

verus! {

/// Why a parse rejected its input. None of these is fatal: the caller gets
/// the record back unchanged and may try another format parser.
#[derive(Debug, Clone, Copy, PartialEq, Eq, Structural)]
pub enum RejectKind {
    /// The first character is not an ASCII digit: some other parser's format.
    NotApplicable,
    /// The line or payload did not break into the required fields.
    FieldCountMismatch,
    /// The timestamp field is not an RFC 3339 timestamp.
    TimestampUnparsable,
    /// The user-at-address token had no `@` separator, or several.
    UserAddressMalformed,
}

/// A rejection: why, and the record exactly as it was handed in.
#[derive(Debug, Clone, PartialEq)]
pub struct Rejected {
    pub kind: RejectKind,
    pub record: LogRecord,
}

/// A value stored under a field name.
#[derive(Debug, Clone, PartialEq)]
pub enum FieldValue {
    /// Plain text.
    Text(String),
    /// A numeric session identifier.
    U32(u32),
    /// A user name.
    User(String),
    /// A source address that parses as an IP literal, kept as its text.
    Ip(String),
}

/// Spec-level image of a `FieldValue`.
pub enum FieldV {
    Text(Seq<char>),
    U32(u32),
    User(Seq<char>),
    Ip(Seq<char>),
}

impl View for FieldValue {
    type V = FieldV;

    open spec fn view(&self) -> FieldV {
        match self {
            FieldValue::Text(s) => FieldV::Text(s@),
            FieldValue::U32(v) => FieldV::U32(*v),
            FieldValue::User(s) => FieldV::User(s@),
            FieldValue::Ip(s) => FieldV::Ip(s@),
        }
    }
}

/// Outcome of an authentication event. A plain successful connect is tagged
/// `Establish`, not `Success`: opening the connection implies no credential
/// check of its own.
#[derive(Debug, Clone, Copy, PartialEq, Eq, Structural)]
pub enum AuthOutcome {
    Establish,
    Success,
    Fail,
}

/// The text stored under `event.outcome` for each outcome.
pub open spec fn outcome_text(o: AuthOutcome) -> Seq<char> {
    match o {
        AuthOutcome::Establish => "ESTABLISH"@,
        AuthOutcome::Success => "SUCCESS"@,
        AuthOutcome::Fail => "FAIL"@,
    }
}

/// Who logged in and from where. `domain` is always the protocol label
/// `"mysql"`, never derived from input.
#[derive(Debug, Clone, PartialEq)]
pub enum LoginIdentity {
    /// No network address: the source was `localhost` or `127.0.0.1`.
    Local { user_name: String, domain: String },
    /// Any other source, with its address kept as text.
    Remote { user_name: String, domain: String, source_address: String },
}

/// Spec-level image of a `LoginIdentity`.
pub enum LoginIdentityV {
    Local { user_name: Seq<char>, domain: Seq<char> },
    Remote { user_name: Seq<char>, domain: Seq<char>, source_address: Seq<char> },
}

impl View for LoginIdentity {
    type V = LoginIdentityV;

    open spec fn view(&self) -> LoginIdentityV {
        match self {
            LoginIdentity::Local { user_name, domain } => LoginIdentityV::Local {
                user_name: user_name@,
                domain: domain@,
            },
            LoginIdentity::Remote { user_name, domain, source_address } => LoginIdentityV::Remote {
                user_name: user_name@,
                domain: domain@,
                source_address: source_address@,
            },
        }
    }
}

/// An authentication event attached to the record.
#[derive(Debug, Clone, PartialEq)]
pub struct AuthEvent {
    /// Host the login happened on.
    pub hostname: String,
    pub outcome: AuthOutcome,
    pub login: LoginIdentity,
}

/// Spec-level image of an `AuthEvent`.
pub struct AuthEventV {
    pub hostname: Seq<char>,
    pub outcome: AuthOutcome,
    pub login: LoginIdentityV,
}

impl View for AuthEvent {
    type V = AuthEventV;

    open spec fn view(&self) -> AuthEventV {
        AuthEventV { hostname: self.hostname@, outcome: self.outcome, login: self.login@ }
    }
}

/// The fields map that a list of writes denotes: a later write under the
/// same name overrides an earlier one.
pub open spec fn fields_map(s: Seq<(String, FieldValue)>) -> Map<Seq<char>, FieldV>
    decreases s.len(),
{
    if s.len() == 0 {
        Map::empty()
    } else {
        fields_map(s.drop_last()).insert(s.last().0@, s.last().1@)
    }
}

/// The last write under a name decides both membership and value.
proof fn lemma_fields_map_found(s: Seq<(String, FieldValue)>, i: int)
    requires
        0 <= i < s.len(),
        forall|j: int| i < j < s.len() ==> s[j].0@ != s[i].0@,
    ensures
        fields_map(s).contains_key(s[i].0@),
        fields_map(s)[s[i].0@] == s[i].1@,
    decreases s.len(),
{
    if i == s.len() - 1 {
    } else {
        lemma_fields_map_found(s.drop_last(), i);
    }
}

/// A name never written is not in the map.
proof fn lemma_fields_map_absent(s: Seq<(String, FieldValue)>, k: Seq<char>)
    requires
        forall|j: int| 0 <= j < s.len() ==> s[j].0@ != k,
    ensures
        !fields_map(s).contains_key(k),
    decreases s.len(),
{
    if s.len() > 0 {
        lemma_fields_map_absent(s.drop_last(), k);
    }
}

/// Spec-level image of a `LogRecord`.
pub struct RecordV {
    pub message: Seq<char>,
    pub service: Seq<char>,
    pub product: Seq<char>,
    pub category: Seq<char>,
    pub event_created: Option<i64>,
    pub fields: Map<Seq<char>, FieldV>,
    pub event: Option<AuthEventV>,
}

/// One normalized event record.
#[derive(Debug, Clone, PartialEq)]
pub struct LogRecord {
    message: String,
    service: String,
    product: String,
    category: String,
    event_created: Option<i64>,
    fields: Vec<(String, FieldValue)>,
    event: Option<AuthEvent>,
}

impl View for LogRecord {
    type V = RecordV;

    closed spec fn view(&self) -> RecordV {
        RecordV {
            message: self.message@,
            service: self.service@,
            product: self.product@,
            category: self.category@,
            event_created: self.event_created,
            fields: fields_map(self.fields@),
            event: match self.event {
                Some(e) => Some(e@),
                None => None,
            },
        }
    }
}

impl LogRecord {
    /// A fresh record holding only the raw line.
    pub fn new(message: String) -> (r: LogRecord)
        ensures
            r@ == (RecordV {
                message: message@,
                service: Seq::<char>::empty(),
                product: Seq::<char>::empty(),
                category: Seq::<char>::empty(),
                event_created: None::<i64>,
                fields: Map::<Seq<char>, FieldV>::empty(),
                event: None::<AuthEventV>,
            }),
    {
        LogRecord {
            message,
            service: String::new(),
            product: String::new(),
            category: String::new(),
            event_created: None,
            fields: Vec::new(),
            event: None,
        }
    }

    /// The raw line this record was made from.
    pub fn message(&self) -> (r: &str)
        ensures
            r@ == self@.message,
    {
        self.message.as_str()
    }

    pub fn service(&self) -> (r: &str)
        ensures
            r@ == self@.service,
    {
        self.service.as_str()
    }

    pub fn product(&self) -> (r: &str)
        ensures
            r@ == self@.product,
    {
        self.product.as_str()
    }

    pub fn category(&self) -> (r: &str)
        ensures
            r@ == self@.category,
    {
        self.category.as_str()
    }

    pub fn event_created(&self) -> (r: Option<i64>)
        ensures
            r == self@.event_created,
    {
        self.event_created
    }

    pub fn event(&self) -> (r: &Option<AuthEvent>)
        ensures
            match r {
                Some(e) => self@.event == Some(e@),
                None => self@.event is None,
            },
    {
        &self.event
    }

    /// The field writes in order; a later write under a name overrides an
    /// earlier one.
    pub fn fields(&self) -> (r: &Vec<(String, FieldValue)>)
        ensures
            fields_map(r@) == self@.fields,
    {
        &self.fields
    }

    /// Looks a field up by name: the latest value written under it, if any.
    pub fn field(&self, name: &str) -> (r: Option<&FieldValue>)
        ensures
            match r {
                Some(v) => self@.fields.contains_key(name@) && v@ == self@.fields[name@],
                None => !self@.fields.contains_key(name@),
            },
    {
        let mut i: usize = self.fields.len();
        while i > 0
            invariant
                i <= self.fields@.len(),
                forall|j: int| i <= j < self.fields@.len() ==> self.fields@[j].0@ != name@,
            decreases i,
        {
            i -= 1;
            if crate::text::str_eq(self.fields[i].0.as_str(), name) {
                proof {
                    lemma_fields_map_found(self.fields@, i as int);
                }
                return Some(&self.fields[i].1);
            }
        }
        proof {
            lemma_fields_map_absent(self.fields@, name@);
        }
        None
    }

    /// Writes a field, overriding any earlier value under the same name.
    pub fn add_field(&mut self, name: &str, value: FieldValue)
        ensures
            final (self)@ == (RecordV { fields: old(self)@.fields.insert(name@, value@), ..old(
                self,
            )@ }),
    {
        let owned = String::from_str(name);
        self.fields.push((owned, value));
        proof {
            assert(self.fields@.drop_last() =~= old(self).fields@);
        }
    }

    /// Sets the creation timestamp, in milliseconds since the epoch.
    pub fn set_event_created(&mut self, t: i64)
        ensures
            final (self)@ == (RecordV { event_created: Some(t), ..old(self)@ }),
    {
        self.event_created = Some(t);
    }

    pub fn set_service(&mut self, s: String)
        ensures
            final (self)@ == (RecordV { service: s@, ..old(self)@ }),
    {
        self.service = s;
    }

    pub fn set_product(&mut self, s: String)
        ensures
            final (self)@ == (RecordV { product: s@, ..old(self)@ }),
    {
        self.product = s;
    }

    pub fn set_category(&mut self, s: String)
        ensures
            final (self)@ == (RecordV { category: s@, ..old(self)@ }),
    {
        self.category = s;
    }

    /// Attaches an authentication event and records its outcome under
    /// `event.outcome`.
    pub fn set_event(&mut self, e: AuthEvent)
        ensures
            final (self)@ == (RecordV {
                event: Some(e@),
                fields: old(self)@.fields.insert(
                    "event.outcome"@,
                    FieldV::Text(outcome_text(e.outcome)),
                ),
                ..old(self)@
            }),
    {
        let txt = match e.outcome {
            AuthOutcome::Establish => "ESTABLISH",
            AuthOutcome::Success => "SUCCESS",
            AuthOutcome::Fail => "FAIL",
        };
        self.add_field("event.outcome", FieldValue::Text(String::from_str(txt)));
        self.event = Some(e);
    }
}

} // verus!
