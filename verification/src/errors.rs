//! The failures that an operation of the backend reports to its caller.
use vstd::prelude::*;
use vstd::std_specs::convert::IntoSpec;

verus! {

/// Why an operation was refused.
#[derive(Clone, Copy, Debug, PartialEq, Eq, Structural)]
pub enum ApiError {
    /// The storage could not serve the request: no connection could be had,
    /// or the schema is not in place.
    Database,
    /// A stored media tag is none of the known ones.
    UnrecognizedMediaValue,
    /// A caller supplied text that does not denote an identifier.
    InvalidId,
    /// The principal may not do this: someone else created the item, or the
    /// session is unknown.
    UnauthorizedOperation,
    /// No principal is stored under the identifier.
    NoUserFound,
    /// No item is stored under the identifier.
    NotFound,
    /// An entity with this identifier is stored already.
    Conflict,
}

/// The result of an operation that may be refused.
pub type ApiResult<T> = Result<T, ApiError>;

impl ApiError {
    /// The sentence shown to a user for this failure.
    pub open spec fn message_text(self) -> Seq<char> {
        match self {
            ApiError::Database => "Internal database error"@,
            ApiError::UnrecognizedMediaValue => "The media associated with this object is not recognized"@,
            ApiError::InvalidId => "The id is invalid"@,
            ApiError::UnauthorizedOperation => "You don't have the permissions to perform this action"@,
            ApiError::NoUserFound => "No user found associted with your id"@,
            ApiError::NotFound => "No object found with this id"@,
            ApiError::Conflict => "An object with this id already exists"@,
        }
    }

    /// The machine-readable tag of this failure.
    pub open spec fn code_text(self) -> Seq<char> {
        match self {
            ApiError::Database => "DATABASE"@,
            ApiError::UnrecognizedMediaValue => "UNRECOGNIZED_MEDIA_VALUE"@,
            ApiError::InvalidId => "INVALID_ID"@,
            ApiError::UnauthorizedOperation => "UNAUTHORIZED_OPERATION"@,
            ApiError::NoUserFound => "NO_USER_FOUND"@,
            ApiError::NotFound => "NOT_FOUND"@,
            ApiError::Conflict => "CONFLICT"@,
        }
    }

    /// The sentence shown to a user for this failure.
    pub fn message(&self) -> (text: &'static str)
        ensures
            text@ == self.message_text(),
    {
        match self {
            ApiError::Database => "Internal database error",
            ApiError::UnrecognizedMediaValue => "The media associated with this object is not recognized",
            ApiError::InvalidId => "The id is invalid",
            ApiError::UnauthorizedOperation => "You don't have the permissions to perform this action",
            ApiError::NoUserFound => "No user found associted with your id",
            ApiError::NotFound => "No object found with this id",
            ApiError::Conflict => "An object with this id already exists",
        }
    }

    /// The machine-readable tag of this failure.
    pub fn code(&self) -> (text: &'static str)
        ensures
            text@ == self.code_text(),
    {
        match self {
            ApiError::Database => "DATABASE",
            ApiError::UnrecognizedMediaValue => "UNRECOGNIZED_MEDIA_VALUE",
            ApiError::InvalidId => "INVALID_ID",
            ApiError::UnauthorizedOperation => "UNAUTHORIZED_OPERATION",
            ApiError::NoUserFound => "NO_USER_FOUND",
            ApiError::NotFound => "NOT_FOUND",
            ApiError::Conflict => "CONFLICT",
        }
    }

    /// The error object handed to the query layer: the message of this
    /// failure, with its tag under the key `type` of the extensions.
    pub fn into_field_error(self) -> (error: juniper::FieldError<juniper::DefaultScalarValue>)
        ensures
            error == field_error_of(self.message_text(), "type"@, self.code_text()),
    {
        field_error(self.message(), "type", self.code())
    }
}

/// `juniper::FieldError`: the error object of the query layer. It is
/// handed on as it is built, without a look inside.
#[verifier::external_type_specification]
#[verifier::external_body]
#[verifier::reject_recursive_types(S)]
pub struct ExFieldError<S>(juniper::FieldError<S>);

/// `juniper::DefaultScalarValue`: the scalars of the query layer.
#[verifier::external_type_specification]
#[verifier::external_body]
pub struct ExDefaultScalarValue(juniper::DefaultScalarValue);

/// `rusqlite::Error`: what a statement on the store on disk fails with.
#[verifier::external_type_specification]
#[verifier::external_body]
pub struct ExSqliteError(rusqlite::Error);

/// `r2d2::Error`: what the pool fails with when no connection can be had
/// in time.
#[verifier::external_type_specification]
#[verifier::external_body]
pub struct ExPoolError(r2d2::Error);

/// The field error that `juniper::FieldError::new` builds from a message and
/// an extensions object with one entry, the string `value` under `key`.
pub uninterp spec fn field_error_of(
    message: Seq<char>,
    key: Seq<char>,
    value: Seq<char>,
) -> juniper::FieldError<juniper::DefaultScalarValue>;

/// Builds a field error with `juniper::FieldError::new`.
///
/// The extensions are an object with a single field, a string scalar
/// holding `value` under the name `key`. The contract names the error so
/// built, which depends on the three texts alone.
#[verifier::external_body]
fn field_error(message: &str, key: &str, value: &str) -> (error: juniper::FieldError<
    juniper::DefaultScalarValue,
>)
    ensures
        error == field_error_of(message@, key@, value@),
{
    let mut extensions = juniper::Object::with_capacity(1);
    extensions.add_field(key, juniper::Value::scalar(value.to_owned()));
    juniper::FieldError::new(message, juniper::Value::object(extensions))
}

/// What went wrong in the storage, as far as the backend tells failures apart.
#[derive(Clone, Copy, Debug, PartialEq, Eq, Structural)]
pub enum StorageFailure {
    /// A query for one row found none.
    NoRows,
    /// A write was refused because it would break a constraint of the schema.
    Constraint,
    /// Anything else: the storage cannot be reached or used.
    Unavailable,
}

impl StorageFailure {
    /// How a failure of the storage is told to the caller.
    pub open spec fn told(self) -> ApiError {
        match self {
            StorageFailure::NoRows => ApiError::NotFound,
            StorageFailure::Constraint => ApiError::Conflict,
            StorageFailure::Unavailable => ApiError::Database,
        }
    }

    /// How a failure of the storage is told to the caller.
    pub fn api_error(self) -> (api: ApiError)
        ensures
            api == self.told(),
    {
        match self {
            StorageFailure::NoRows => ApiError::NotFound,
            StorageFailure::Constraint => ApiError::Conflict,
            StorageFailure::Unavailable => ApiError::Database,
        }
    }
}

/// What an error of the store on disk reports, as far as the backend
/// reads it.
#[derive(Clone, Copy, Debug, PartialEq, Eq, Structural)]
pub enum SqliteReport {
    /// A query for one row found none.
    NoRows,
    /// SQLite refused a statement; this is its extended result code.
    Failure(i32),
    /// Any other error.
    Other,
}

/// The result code with which SQLite refuses a write that would break a
/// constraint. It is the low byte of every extended code of that kind.
pub const SQLITE_CONSTRAINT: i32 = 19;

impl SqliteReport {
    /// The kind of failure that a report stands for: a missing row, a
    /// broken constraint where the low byte of the result code says so,
    /// and a storage that is unavailable in every other case.
    pub open spec fn kind(self) -> StorageFailure {
        match self {
            SqliteReport::NoRows => StorageFailure::NoRows,
            SqliteReport::Failure(code) => if code & 0xff == SQLITE_CONSTRAINT {
                StorageFailure::Constraint
            } else {
                StorageFailure::Unavailable
            },
            SqliteReport::Other => StorageFailure::Unavailable,
        }
    }

    /// The kind of failure that this report stands for.
    pub fn failure(self) -> (kind: StorageFailure)
        ensures
            kind == self.kind(),
    {
        match self {
            SqliteReport::NoRows => StorageFailure::NoRows,
            SqliteReport::Failure(code) => if code & 0xff == SQLITE_CONSTRAINT {
                StorageFailure::Constraint
            } else {
                StorageFailure::Unavailable
            },
            SqliteReport::Other => StorageFailure::Unavailable,
        }
    }
}

/// What an error of `rusqlite` reports: its variant and, for a failure of
/// SQLite, the extended result code that it carries.
pub uninterp spec fn sqlite_report(error: rusqlite::Error) -> SqliteReport;

/// Reads an error of `rusqlite` into plain values.
///
/// The variant `QueryReturnedNoRows` is told as such, and of the variant
/// `SqliteFailure` the field `extended_code` is handed out; every other
/// variant is `Other`. Nothing is decided here. The contract names what is
/// read, which depends on the error alone.
#[verifier::external_body]
fn report(error: &rusqlite::Error) -> (read: SqliteReport)
    ensures
        read == sqlite_report(*error),
{
    match error {
        rusqlite::Error::QueryReturnedNoRows => SqliteReport::NoRows,
        rusqlite::Error::SqliteFailure(failure, _) => SqliteReport::Failure(failure.extended_code),
        _ => SqliteReport::Other,
    }
}

impl From<rusqlite::Error> for ApiError {
    fn from(error: rusqlite::Error) -> (api: ApiError) {
        report(&error).failure().api_error()
    }
}

impl vstd::std_specs::convert::FromSpecImpl<rusqlite::Error> for ApiError {
    open spec fn obeys_from_spec() -> bool {
        true
    }

    open spec fn from_spec(error: rusqlite::Error) -> ApiError {
        sqlite_report(error).kind().told()
    }
}

impl From<r2d2::Error> for ApiError {
    fn from(error: r2d2::Error) -> (api: ApiError) {
        ApiError::Database
    }
}

impl vstd::std_specs::convert::FromSpecImpl<r2d2::Error> for ApiError {
    open spec fn obeys_from_spec() -> bool {
        true
    }

    open spec fn from_spec(error: r2d2::Error) -> ApiError {
        ApiError::Database
    }
}

/// Results whose failure can be told as an [`ApiError`].
pub trait IntoApiResult<T>: Sized {
    /// Whether `result` tells the same outcome as this value.
    spec fn told_as(self, result: ApiResult<T>) -> bool;

    /// Keeps a success and tells a failure as an [`ApiError`].
    fn into_api(self) -> (result: ApiResult<T>)
        ensures
            self.told_as(result),
    ;
}

impl<T, E: Into<ApiError>> IntoApiResult<T> for Result<T, E> {
    open spec fn told_as(self, result: ApiResult<T>) -> bool {
        match (self, result) {
            (Ok(value), Ok(kept)) => kept == value,
            (Err(error), Err(told)) => <E as IntoSpec<ApiError>>::obeys_into_spec() ==> told
                == IntoSpec::<ApiError>::into_spec(error),
            _ => false,
        }
    }

    fn into_api(self) -> (result: ApiResult<T>) {
        match self {
            Ok(value) => Ok(value),
            Err(error) => Err(error.into()),
        }
    }
}

} // verus!
