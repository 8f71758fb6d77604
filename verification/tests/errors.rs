use backend::errors::{ApiError, IntoApiResult, SqliteReport, StorageFailure, SQLITE_CONSTRAINT};

const ALL: [ApiError; 7] = [
    ApiError::Database,
    ApiError::UnrecognizedMediaValue,
    ApiError::InvalidId,
    ApiError::UnauthorizedOperation,
    ApiError::NoUserFound,
    ApiError::NotFound,
    ApiError::Conflict,
];

fn extensions_with_type(code: &str) -> juniper::Value {
    let mut object = juniper::Object::with_capacity(1);
    object.add_field("type", juniper::Value::scalar(code.to_owned()));
    juniper::Value::object(object)
}

#[test]
fn messages_are_the_sentences_for_users() {
    assert_eq!(ApiError::Database.message(), "Internal database error");
    assert_eq!(
        ApiError::UnrecognizedMediaValue.message(),
        "The media associated with this object is not recognized"
    );
    assert_eq!(ApiError::InvalidId.message(), "The id is invalid");
    assert_eq!(
        ApiError::UnauthorizedOperation.message(),
        "You don't have the permissions to perform this action"
    );
    assert_eq!(ApiError::NoUserFound.message(), "No user found associted with your id");
    assert_eq!(ApiError::NotFound.message(), "No object found with this id");
    assert_eq!(ApiError::Conflict.message(), "An object with this id already exists");
}

#[test]
fn codes_are_the_tags_for_machines() {
    assert_eq!(ApiError::Database.code(), "DATABASE");
    assert_eq!(ApiError::UnrecognizedMediaValue.code(), "UNRECOGNIZED_MEDIA_VALUE");
    assert_eq!(ApiError::InvalidId.code(), "INVALID_ID");
    assert_eq!(ApiError::UnauthorizedOperation.code(), "UNAUTHORIZED_OPERATION");
    assert_eq!(ApiError::NoUserFound.code(), "NO_USER_FOUND");
    assert_eq!(ApiError::NotFound.code(), "NOT_FOUND");
    assert_eq!(ApiError::Conflict.code(), "CONFLICT");
}

#[test]
fn codes_tell_the_failures_apart() {
    for (i, a) in ALL.iter().enumerate() {
        for (j, b) in ALL.iter().enumerate() {
            assert_eq!(a.code() == b.code(), i == j);
        }
    }
}

#[test]
fn field_error_carries_message_and_type() {
    let error = ApiError::Database.into_field_error();
    assert_eq!(error.message(), "Internal database error");
    assert_eq!(error.extensions(), &extensions_with_type("DATABASE"));
}

#[test]
fn field_error_of_every_failure_carries_its_own_message_and_type() {
    for failure in ALL {
        let error = failure.into_field_error();
        assert_eq!(error.message(), failure.message());
        assert_eq!(error.extensions(), &extensions_with_type(failure.code()));
        assert_ne!(error.message(), failure.code());
    }
}

#[test]
fn field_error_differs_from_one_without_extensions() {
    let error = ApiError::InvalidId.into_field_error();
    let bare: juniper::FieldError = juniper::FieldError::new("The id is invalid", juniper::Value::null());
    assert_ne!(error, bare);
    assert_eq!(
        error,
        juniper::FieldError::new("The id is invalid", extensions_with_type("INVALID_ID"))
    );
}

#[test]
fn storage_failures_are_told_by_kind() {
    assert_eq!(StorageFailure::NoRows.api_error(), ApiError::NotFound);
    assert_eq!(StorageFailure::Constraint.api_error(), ApiError::Conflict);
    assert_eq!(StorageFailure::Unavailable.api_error(), ApiError::Database);
}

#[test]
fn reports_are_read_by_the_low_byte_of_the_code() {
    assert_eq!(SQLITE_CONSTRAINT, 19);
    assert_eq!(SqliteReport::NoRows.failure(), StorageFailure::NoRows);
    assert_eq!(SqliteReport::Other.failure(), StorageFailure::Unavailable);
    assert_eq!(SqliteReport::Failure(19).failure(), StorageFailure::Constraint);
    assert_eq!(SqliteReport::Failure(1555).failure(), StorageFailure::Constraint);
    assert_eq!(SqliteReport::Failure(2067).failure(), StorageFailure::Constraint);
    assert_eq!(SqliteReport::Failure(787).failure(), StorageFailure::Constraint);
    assert_eq!(SqliteReport::Failure(0).failure(), StorageFailure::Unavailable);
    assert_eq!(SqliteReport::Failure(1).failure(), StorageFailure::Unavailable);
    assert_eq!(SqliteReport::Failure(5).failure(), StorageFailure::Unavailable);
    assert_eq!(SqliteReport::Failure(14).failure(), StorageFailure::Unavailable);
    assert_eq!(SqliteReport::Failure(18).failure(), StorageFailure::Unavailable);
    assert_eq!(SqliteReport::Failure(20).failure(), StorageFailure::Unavailable);
    assert_eq!(SqliteReport::Failure(266).failure(), StorageFailure::Unavailable);
    assert_eq!(SqliteReport::Failure(275).failure(), StorageFailure::Constraint);
}

#[test]
fn sqlite_missing_row_is_not_found() {
    assert_eq!(ApiError::from(rusqlite::Error::QueryReturnedNoRows), ApiError::NotFound);
}

#[test]
fn sqlite_constraint_violation_is_a_conflict() {
    let failure = rusqlite::Error::SqliteFailure(rusqlite::ffi::Error::new(19), None);
    assert_eq!(ApiError::from(failure), ApiError::Conflict);
    let primary_key = rusqlite::Error::SqliteFailure(rusqlite::ffi::Error::new(1555), None);
    assert_eq!(ApiError::from(primary_key), ApiError::Conflict);
}

#[test]
fn sqlite_other_failures_are_database_errors() {
    let cannot_open = rusqlite::Error::SqliteFailure(rusqlite::ffi::Error::new(14), None);
    assert_eq!(ApiError::from(cannot_open), ApiError::Database);
    let busy = rusqlite::Error::SqliteFailure(rusqlite::ffi::Error::new(5), Some("busy".to_owned()));
    assert_eq!(ApiError::from(busy), ApiError::Database);
    assert_eq!(ApiError::from(rusqlite::Error::InvalidQuery), ApiError::Database);
    assert_eq!(ApiError::from(rusqlite::Error::InvalidColumnIndex(7)), ApiError::Database);
    assert_eq!(
        ApiError::from(rusqlite::Error::IntegralValueOutOfRange(2, 1000)),
        ApiError::Database
    );
}

#[test]
fn sqlite_errors_of_a_live_connection_are_told_by_kind() {
    let conn = rusqlite::Connection::open_in_memory().unwrap();
    conn.execute_batch("CREATE TABLE t(id INTEGER PRIMARY KEY NOT NULL); INSERT INTO t VALUES (1);")
        .unwrap();
    let twice = conn.execute_batch("INSERT INTO t VALUES (1);").unwrap_err();
    assert_eq!(ApiError::from(twice), ApiError::Conflict);
    let missing = conn
        .query_row("SELECT id FROM t WHERE id = 2", rusqlite::NO_PARAMS, |row| row.get::<_, i64>(0))
        .unwrap_err();
    assert_eq!(ApiError::from(missing), ApiError::NotFound);
    let no_table = conn.execute_batch("INSERT INTO u VALUES (1);").unwrap_err();
    assert_eq!(ApiError::from(no_table), ApiError::Database);
}

#[test]
fn into_api_keeps_a_success() {
    let fine: Result<u8, rusqlite::Error> = Ok(7);
    assert_eq!(fine.into_api(), Ok(7));
    let fine: Result<&str, ApiError> = Ok("kept");
    assert_eq!(fine.into_api(), Ok("kept"));
}

#[test]
fn into_api_tells_a_failure() {
    let none: Result<u8, rusqlite::Error> = Err(rusqlite::Error::QueryReturnedNoRows);
    assert_eq!(none.into_api(), Err(ApiError::NotFound));
    let broken: Result<u8, rusqlite::Error> = Err(rusqlite::Error::InvalidQuery);
    assert_eq!(broken.into_api(), Err(ApiError::Database));
    let own: Result<u8, ApiError> = Err(ApiError::InvalidId);
    assert_eq!(own.into_api(), Err(ApiError::InvalidId));
}

struct Unreachable;

impl r2d2::ManageConnection for Unreachable {
    type Connection = ();
    type Error = rusqlite::Error;

    fn connect(&self) -> Result<(), rusqlite::Error> {
        Err(rusqlite::Error::InvalidQuery)
    }

    fn is_valid(&self, _conn: &mut ()) -> Result<(), rusqlite::Error> {
        Ok(())
    }

    fn has_broken(&self, _conn: &mut ()) -> bool {
        false
    }
}

#[test]
fn pool_exhaustion_is_a_database_error() {
    let pool = r2d2::Pool::builder()
        .max_size(1)
        .connection_timeout(std::time::Duration::from_millis(50))
        .build(Unreachable);
    let failure = match pool {
        Ok(_) => panic!("a pool without connections was built"),
        Err(failure) => failure,
    };
    assert_eq!(ApiError::from(failure), ApiError::Database);
    let pool = r2d2::Pool::builder()
        .max_size(1)
        .connection_timeout(std::time::Duration::from_millis(50))
        .build_unchecked(Unreachable);
    let timed_out: Result<u8, r2d2::Error> = pool.get().map(|_| 0);
    assert_eq!(timed_out.into_api(), Err(ApiError::Database));
}
