//! The error type every fallible operation of the server returns, how it is
//! rendered and how it maps onto HTTP status codes.
use vstd::prelude::*;
use vstd::string::*;
use crate::text::{push_decimal, push_str, decimal};

verus! {

/// An application error. Each variant carries a human-readable message.
#[derive(Debug)]
pub enum AppError {
    NotFound(String),
    InvalidArgument(String),
    AlreadyExists(String),
    FailedPrecondition(String),
    Internal(String),
    Database(String),
}

/// The mathematical value of an [`AppError`]: the variant and its message.
pub enum AppErrorView {
    NotFound(Seq<char>),
    InvalidArgument(Seq<char>),
    AlreadyExists(Seq<char>),
    FailedPrecondition(Seq<char>),
    Internal(Seq<char>),
    Database(Seq<char>),
}

impl View for AppError {
    type V = AppErrorView;

    open spec fn view(&self) -> AppErrorView {
        match self {
            AppError::NotFound(m) => AppErrorView::NotFound(m@),
            AppError::InvalidArgument(m) => AppErrorView::InvalidArgument(m@),
            AppError::AlreadyExists(m) => AppErrorView::AlreadyExists(m@),
            AppError::FailedPrecondition(m) => AppErrorView::FailedPrecondition(m@),
            AppError::Internal(m) => AppErrorView::Internal(m@),
            AppError::Database(m) => AppErrorView::Database(m@),
        }
    }
}

impl AppErrorView {
    /// The message carried by the error.
    pub open spec fn message(self) -> Seq<char> {
        match self {
            AppErrorView::NotFound(m) => m,
            AppErrorView::InvalidArgument(m) => m,
            AppErrorView::AlreadyExists(m) => m,
            AppErrorView::FailedPrecondition(m) => m,
            AppErrorView::Internal(m) => m,
            AppErrorView::Database(m) => m,
        }
    }

    /// The documented prefix of the rendered error.
    pub open spec fn prefix(self) -> Seq<char> {
        match self {
            AppErrorView::NotFound(_) => "not found: "@,
            AppErrorView::InvalidArgument(_) => "invalid argument: "@,
            AppErrorView::AlreadyExists(_) => "already exists: "@,
            AppErrorView::FailedPrecondition(_) => "failed precondition: "@,
            AppErrorView::Internal(_) => "internal: "@,
            AppErrorView::Database(_) => "database: "@,
        }
    }

    /// The rendered error: its prefix followed by its message.
    pub open spec fn text(self) -> Seq<char> {
        self.prefix() + self.message()
    }

    /// The HTTP status code of the error.
    pub open spec fn status(self) -> u16 {
        match self {
            AppErrorView::NotFound(_) => 404,
            AppErrorView::InvalidArgument(_) => 400,
            AppErrorView::AlreadyExists(_) => 400,
            AppErrorView::FailedPrecondition(_) => 412,
            AppErrorView::Internal(_) => 500,
            AppErrorView::Database(_) => 500,
        }
    }

    /// Whether the error's detail is shown to clients. Internal and database
    /// errors are hidden behind a generic message.
    pub open spec fn is_client_error(self) -> bool {
        !(self is Internal || self is Database)
    }

    /// The message a client sees in the response body.
    pub open spec fn client_message(self) -> Seq<char> {
        if self.is_client_error() {
            self.message()
        } else {
            "An internal server error occurred"@
        }
    }
}

impl AppError {
    /// Renders the error as `"<prefix>: <message>"`, e.g. `not found: host 5`.
    pub fn to_string(&self) -> (s: String)
        ensures
            s@ == self@.text(),
    {
        let (prefix, msg) = match self {
            AppError::NotFound(m) => ("not found: ", m),
            AppError::InvalidArgument(m) => ("invalid argument: ", m),
            AppError::AlreadyExists(m) => ("already exists: ", m),
            AppError::FailedPrecondition(m) => ("failed precondition: ", m),
            AppError::Internal(m) => ("internal: ", m),
            AppError::Database(m) => ("database: ", m),
        };
        let mut s = String::from_str(prefix);
        push_str(&mut s, msg.as_str());
        s
    }

    /// The message carried by the error.
    pub fn message(&self) -> (m: &String)
        ensures
            m@ == self@.message(),
    {
        match self {
            AppError::NotFound(m) => m,
            AppError::InvalidArgument(m) => m,
            AppError::AlreadyExists(m) => m,
            AppError::FailedPrecondition(m) => m,
            AppError::Internal(m) => m,
            AppError::Database(m) => m,
        }
    }

    /// The HTTP status code: 404 for a missing record, 400 for a bad or
    /// duplicate argument, 412 for a failed precondition, 500 otherwise.
    pub fn as_status_code(&self) -> (code: u16)
        ensures
            code == self@.status(),
    {
        match self {
            AppError::NotFound(_) => 404,
            AppError::InvalidArgument(_) | AppError::AlreadyExists(_) => 400,
            AppError::FailedPrecondition(_) => 412,
            AppError::Internal(_) | AppError::Database(_) => 500,
        }
    }

    /// The status code and the message of the JSON body `{"error": ...}` a
    /// client receives: client errors verbatim, internal and database errors
    /// replaced by a generic message.
    pub fn into_response(self) -> (r: (u16, String))
        ensures
            r.0 == self@.status(),
            r.1@ == self@.client_message(),
    {
        let code = self.as_status_code();
        match self {
            AppError::NotFound(m) => (code, m),
            AppError::InvalidArgument(m) => (code, m),
            AppError::AlreadyExists(m) => (code, m),
            AppError::FailedPrecondition(m) => (code, m),
            AppError::Internal(_) | AppError::Database(_) => (code, String::from_str("An internal server error occurred")),
        }
    }

    /// An `Internal` error with the given message.
    pub fn internal(msg: &str) -> (e: AppError)
        ensures
            e@ == AppErrorView::Internal(msg@),
    {
        AppError::Internal(String::from_str(msg))
    }

    /// An `InvalidArgument` error with the given message.
    pub fn invalid_argument(msg: &str) -> (e: AppError)
        ensures
            e@ == AppErrorView::InvalidArgument(msg@),
    {
        AppError::InvalidArgument(String::from_str(msg))
    }

    /// A `FailedPrecondition` error with the given message.
    pub fn failed_precondition(msg: &str) -> (e: AppError)
        ensures
            e@ == AppErrorView::FailedPrecondition(msg@),
    {
        AppError::FailedPrecondition(String::from_str(msg))
    }
}

/// The class a database reports for a constraint failure.
#[derive(Debug, Clone, Copy, PartialEq, Eq, Structural)]
pub enum DbErrorKind {
    UniqueViolation,
    ForeignKeyViolation,
    NotNullViolation,
    CheckViolation,
    ExclusionViolation,
    Other,
}

/// What the persistence layer reports when a query fails: the failure class
/// with the text of its parts.
#[derive(Debug)]
pub enum DbError {
    Configuration(String),
    InvalidArgument(String),
    Database { kind: DbErrorKind, message: String },
    Io(String),
    Tls(String),
    Protocol(String),
    RowNotFound,
    TypeNotFound { name: String },
    ColumnIndexOutOfBounds { index: usize, len: usize },
    ColumnNotFound(String),
    ColumnDecode { column: String, source: String },
    Encode(String),
    Decode(String),
    AnyDriverError(String),
    PoolTimedOut,
    PoolClosed,
    WorkerCrashed,
    Migrate(String),
    InvalidSavePointStatement,
    BeginFailed,
    /// Any failure not listed above.
    Other,
}

/// The application error a database failure maps to.
pub open spec fn db_error_to_app(e: DbError) -> AppErrorView {
    match e {
        DbError::RowNotFound => AppErrorView::NotFound("record not found"@),
        DbError::ColumnNotFound(name) => AppErrorView::Internal("column not found: "@ + name@),
        DbError::ColumnIndexOutOfBounds { index, len } => AppErrorView::Internal(
            "column index out of bounds: "@ + decimal(index as nat) + " (len: "@ + decimal(len as nat) + ")"@,
        ),
        DbError::PoolTimedOut => AppErrorView::Database(
            "database pool timed out - server under heavy load"@,
        ),
        DbError::PoolClosed => AppErrorView::Internal("database pool was closed"@),
        DbError::Database { kind, message } => match kind {
            DbErrorKind::UniqueViolation => AppErrorView::AlreadyExists(message@),
            DbErrorKind::ForeignKeyViolation => AppErrorView::FailedPrecondition(
                "foreign key violation: "@ + message@,
            ),
            DbErrorKind::NotNullViolation => AppErrorView::InvalidArgument(message@),
            DbErrorKind::CheckViolation => AppErrorView::InvalidArgument(message@),
            _ => AppErrorView::Database(message@),
        },
        DbError::Io(m) => AppErrorView::Database("IO error: "@ + m@),
        DbError::Tls(m) => AppErrorView::Internal("TLS error: "@ + m@),
        DbError::Protocol(m) => AppErrorView::Internal("protocol error: "@ + m@),
        DbError::InvalidArgument(m) => AppErrorView::InvalidArgument(m@),
        DbError::TypeNotFound { name } => AppErrorView::Internal(
            "type not found: "@ + name@,
        ),
        DbError::ColumnDecode { column, source } => AppErrorView::Internal(
            "decode error at index "@ + column@ + ": "@ + source@,
        ),
        DbError::Encode(m) => AppErrorView::Internal("encode error: "@ + m@),
        DbError::Decode(m) => AppErrorView::Internal("decode error: "@ + m@),
        DbError::Configuration(m) => AppErrorView::Internal("config error: "@ + m@),
        DbError::Migrate(m) => AppErrorView::Internal("migration error: "@ + m@),
        DbError::WorkerCrashed => AppErrorView::Internal("internal worker crashed"@),
        DbError::BeginFailed => AppErrorView::Database("failed to start transaction"@),
        DbError::InvalidSavePointStatement => AppErrorView::Internal("invalid savepoint"@),
        DbError::AnyDriverError(m) => AppErrorView::Internal("driver error: "@ + m@),
        DbError::Other => AppErrorView::Internal("an unexpected database error occurred"@),
    }
}

fn prefixed(prefix: &str, m: &String) -> (s: String)
    ensures
        s@ == prefix@ + m@,
{
    let mut s = String::from_str(prefix);
    push_str(&mut s, m.as_str());
    s
}

impl AppError {
    /// Maps a database failure onto an application error: a missing row is
    /// `NotFound`, a unique violation `AlreadyExists`, a foreign-key violation
    /// `FailedPrecondition`, a not-null or check violation `InvalidArgument`,
    /// pool exhaustion, I/O and transaction start failures `Database`, and the
    /// rest `Internal`.
    pub fn from_db_error(value: DbError) -> (r: AppError)
        ensures
            r@ == db_error_to_app(value),
    {
        match value {
            DbError::RowNotFound => AppError::NotFound(String::from_str("record not found")),
            DbError::ColumnNotFound(name) => AppError::Internal(prefixed("column not found: ", &name)),
            DbError::ColumnIndexOutOfBounds { index, len } => {
                let mut s = String::from_str("column index out of bounds: ");
                push_decimal(&mut s, index as u64);
                push_str(&mut s, " (len: ");
                push_decimal(&mut s, len as u64);
                push_str(&mut s, ")");
                AppError::Internal(s)
            },
            DbError::PoolTimedOut => AppError::Database(
                String::from_str("database pool timed out - server under heavy load"),
            ),
            DbError::PoolClosed => AppError::Internal(String::from_str("database pool was closed")),
            DbError::Database { kind, message } => match kind {
                DbErrorKind::UniqueViolation => AppError::AlreadyExists(message),
                DbErrorKind::ForeignKeyViolation => AppError::FailedPrecondition(
                    prefixed("foreign key violation: ", &message),
                ),
                DbErrorKind::NotNullViolation | DbErrorKind::CheckViolation => {
                    AppError::InvalidArgument(message)
                },
                _ => AppError::Database(message),
            },
            DbError::Io(m) => AppError::Database(prefixed("IO error: ", &m)),
            DbError::Tls(m) => AppError::Internal(prefixed("TLS error: ", &m)),
            DbError::Protocol(m) => AppError::Internal(prefixed("protocol error: ", &m)),
            DbError::InvalidArgument(m) => AppError::InvalidArgument(m),
            DbError::TypeNotFound { name } => AppError::Internal(
                prefixed("type not found: ", &name),
            ),
            DbError::ColumnDecode { column, source } => {
                let mut s = String::from_str("decode error at index ");
                push_str(&mut s, column.as_str());
                push_str(&mut s, ": ");
                push_str(&mut s, source.as_str());
                AppError::Internal(s)
            },
            DbError::Encode(m) => AppError::Internal(prefixed("encode error: ", &m)),
            DbError::Decode(m) => AppError::Internal(prefixed("decode error: ", &m)),
            DbError::Configuration(m) => AppError::Internal(prefixed("config error: ", &m)),
            DbError::Migrate(m) => AppError::Internal(prefixed("migration error: ", &m)),
            DbError::WorkerCrashed => AppError::Internal(String::from_str("internal worker crashed")),
            DbError::BeginFailed => AppError::Database(String::from_str("failed to start transaction")),
            DbError::InvalidSavePointStatement => AppError::Internal(
                String::from_str("invalid savepoint"),
            ),
            DbError::AnyDriverError(m) => AppError::Internal(prefixed("driver error: ", &m)),
            DbError::Other => AppError::Internal(
                String::from_str("an unexpected database error occurred"),
            ),
        }
    }
}

/// Every application error renders as its documented prefix followed by its
/// message, and the client sees the message verbatim exactly when the error is
/// not an internal or database error.
pub proof fn lemma_rendering_and_exposure(e: AppErrorView)
    ensures
        e.text() == e.prefix() + e.message(),
        e.is_client_error() ==> e.client_message() == e.message(),
        !e.is_client_error() ==> e.client_message() == "An internal server error occurred"@
            && e.status() == 500,
        e.status() == 500 <==> !e.is_client_error(),
{
}

} // verus!
