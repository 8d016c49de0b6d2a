//! The error type of the whole application.
use vstd::prelude::*;

verus! {

/// Error of any operation of the application; each kind carries a message.
#[derive(Debug, Clone, PartialEq, Eq)]
pub enum AppError {
    /// A database operation failed.
    Database(String),
    /// An HTTP or network operation failed.
    Network(String),
    /// Serialising or deserialising failed.
    Serialization(String),
    /// A file-system or other I/O operation failed.
    Io(String),
    /// A model API failed or answered something unusable.
    LlmApi(String),
    /// Speech synthesis failed.
    Tts(String),
    /// An input was invalid.
    Validation(String),
    /// A plugin failed or could not be registered.
    Plugin(String),
    /// An attachment was too large or of an unsupported kind.
    Attachment(String),
    /// A resource was not found.
    NotFound(String),
}

impl AppError {
    /// The message the error carries.
    pub open spec fn message(self) -> Seq<char> {
        match self {
            AppError::Database(m) => m@,
            AppError::Network(m) => m@,
            AppError::Serialization(m) => m@,
            AppError::Io(m) => m@,
            AppError::LlmApi(m) => m@,
            AppError::Tts(m) => m@,
            AppError::Validation(m) => m@,
            AppError::Plugin(m) => m@,
            AppError::Attachment(m) => m@,
            AppError::NotFound(m) => m@,
        }
    }

    /// The label that the display text of the error starts with.
    pub open spec fn label(self) -> Seq<char> {
        match self {
            AppError::Database(_) => "Database error: "@,
            AppError::Network(_) => "Network error: "@,
            AppError::Serialization(_) => "Serialization error: "@,
            AppError::Io(_) => "IO error: "@,
            AppError::LlmApi(_) => "LLM API error: "@,
            AppError::Tts(_) => "TTS error: "@,
            AppError::Validation(_) => "Validation error: "@,
            AppError::Plugin(_) => "Plugin error: "@,
            AppError::Attachment(_) => "Attachment error: "@,
            AppError::NotFound(_) => "Not found: "@,
        }
    }

    /// The display text of the error: its label followed by its message.
    pub fn to_string(&self) -> (s: String)
        ensures
            s@ == self.label() + self.message(),
    {
        let (label, m) = match self {
            AppError::Database(m) => ("Database error: ", m),
            AppError::Network(m) => ("Network error: ", m),
            AppError::Serialization(m) => ("Serialization error: ", m),
            AppError::Io(m) => ("IO error: ", m),
            AppError::LlmApi(m) => ("LLM API error: ", m),
            AppError::Tts(m) => ("TTS error: ", m),
            AppError::Validation(m) => ("Validation error: ", m),
            AppError::Plugin(m) => ("Plugin error: ", m),
            AppError::Attachment(m) => ("Attachment error: ", m),
            AppError::NotFound(m) => ("Not found: ", m),
        };
        let mut s = String::from_str(label);
        s.append(m.as_str());
        s
    }
}

/// std's I/O error, carried through opaquely.
#[verifier::external_type_specification]
#[verifier::external_body]
pub struct ExIoError(std::io::Error);

/// The display text of an I/O error (std's `Display` for `std::io::Error`).
///
/// Trusted, with nothing stated: the text of an operating-system error comes from the
/// operating system and its locale.
#[verifier::external_body]
fn io_error_text(err: &std::io::Error) -> String {
    err.to_string()
}

impl From<std::io::Error> for AppError {
    /// An I/O error becomes an `Io` error carrying the I/O error's display text.
    fn from(err: std::io::Error) -> (r: Self)
        ensures
            r is Io,
    {
        AppError::Io(io_error_text(&err))
    }
}

impl vstd::std_specs::convert::FromSpecImpl<std::io::Error> for AppError {
    open spec fn obeys_from_spec() -> bool {
        false
    }

    open spec fn from_spec(v: std::io::Error) -> AppError {
        AppError::Io(vstd::pervasive::arbitrary())
    }
}

/// `serde_json`'s error, carried through opaquely.
#[verifier::external_type_specification]
#[verifier::external_body]
pub struct ExJsonError(serde_json::Error);

/// The display text of a JSON error (`Display` for `serde_json::Error`).
///
/// Trusted, with nothing stated: a JSON error may wrap an I/O error, whose text comes from
/// the operating system.
#[verifier::external_body]
pub(crate) fn json_error_text(err: &serde_json::Error) -> String {
    err.to_string()
}

impl From<serde_json::Error> for AppError {
    /// A JSON error becomes a `Serialization` error carrying the JSON error's display text.
    fn from(err: serde_json::Error) -> (r: Self)
        ensures
            r is Serialization,
    {
        AppError::Serialization(json_error_text(&err))
    }
}

impl vstd::std_specs::convert::FromSpecImpl<serde_json::Error> for AppError {
    open spec fn obeys_from_spec() -> bool {
        false
    }

    open spec fn from_spec(v: serde_json::Error) -> AppError {
        AppError::Serialization(vstd::pervasive::arbitrary())
    }
}

/// `rusqlite`'s error, carried through opaquely.
#[verifier::external_type_specification]
#[verifier::external_body]
pub struct ExSqlError(rusqlite::Error);

/// The display text of a database error (`Display` for `rusqlite::Error`).
///
/// Trusted, with nothing stated: a database error may wrap an error of any kind, whose text
/// it shows.
#[verifier::external_body]
fn sql_error_text(err: &rusqlite::Error) -> String {
    err.to_string()
}

impl From<rusqlite::Error> for AppError {
    /// A database error becomes a `Database` error carrying its display text.
    fn from(err: rusqlite::Error) -> (r: Self)
        ensures
            r is Database,
    {
        AppError::Database(sql_error_text(&err))
    }
}

impl vstd::std_specs::convert::FromSpecImpl<rusqlite::Error> for AppError {
    open spec fn obeys_from_spec() -> bool {
        false
    }

    open spec fn from_spec(v: rusqlite::Error) -> AppError {
        AppError::Database(vstd::pervasive::arbitrary())
    }
}

/// `reqwest`'s error, carried through opaquely.
#[verifier::external_type_specification]
#[verifier::external_body]
pub struct ExHttpError(reqwest::Error);

/// The display text of an HTTP error: what failed, and for which URL where it has one.
pub uninterp spec fn http_error_display(err: reqwest::Error) -> Seq<char>;

/// The display text of an HTTP error (`Display` for `reqwest::Error`).
///
/// Trusted: the text is a function of the error alone, named `http_error_display`.
#[verifier::external_body]
fn http_error_text(err: &reqwest::Error) -> (s: String)
    ensures
        s@ == http_error_display(*err),
{
    err.to_string()
}

impl From<reqwest::Error> for AppError {
    /// An HTTP error becomes a `Network` error carrying its display text.
    fn from(err: reqwest::Error) -> (r: Self)
        ensures
            r is Network,
            r.message() == http_error_display(err),
    {
        AppError::Network(http_error_text(&err))
    }
}

impl vstd::std_specs::convert::FromSpecImpl<reqwest::Error> for AppError {
    open spec fn obeys_from_spec() -> bool {
        false
    }

    open spec fn from_spec(v: reqwest::Error) -> AppError {
        AppError::Network(vstd::pervasive::arbitrary())
    }
}

} // verus!
