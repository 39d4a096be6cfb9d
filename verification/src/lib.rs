//! Parser for one line of a MySQL server general query log.
//!
//! A raw line is tokenized into timestamp, session identifier, command and
//! payload; the payload of a `Connect` command is further decomposed into a
//! typed authentication event. All parsing logic is verified; the two calls
//! into outside crates (chrono's RFC 3339 reader and usiem's IP-literal
//! classifier) stand behind trusted declarations in `ext`.

pub mod auth;
pub mod ext;
pub mod general;
pub mod numbers;
pub mod record;
pub mod text;

pub use crate::auth::parse_connection;
pub use crate::auth::parse_user;
pub use crate::general::extract_general_fields;
pub use crate::general::parse_general_log;
pub use crate::general::valid_general_log;
pub use crate::record::AuthEvent;
pub use crate::record::AuthOutcome;
pub use crate::record::FieldValue;
pub use crate::record::LogRecord;
pub use crate::record::LoginIdentity;
pub use crate::record::RejectKind;
pub use crate::record::Rejected;
