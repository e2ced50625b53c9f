use vstd::prelude::*;
use vstd::string::StringExecFns;
use crate::reading::SensorData;
use crate::store::{latest_of, recent_of, ReadingStore, StoreError};

verus! {

/// How many rows a recent-readings request returns when it names no limit.
pub const RECENT_LIMIT: usize = 100;

pub const STATUS_OK: u16 = 200;

pub const STATUS_NOT_FOUND: u16 = 404;

pub const STATUS_SERVER_ERROR: u16 = 500;

/// The uniform envelope of every answer: whether it succeeded, the payload,
/// and a message for people.
pub struct ApiResponse<T> {
    pub success: bool,
    pub data: T,
    pub message: String,
}

impl<T> ApiResponse<T> {
    pub fn success(data: T) -> (r: Self)
        ensures
            r.success,
            r.data == data,
            r.message@ == "Success"@,
    {
        ApiResponse { success: true, data, message: String::from_str("Success") }
    }

    pub fn failure(data: T, message: &str) -> (r: Self)
        ensures
            !r.success,
            r.data == data,
            r.message@ == message@,
    {
        ApiResponse { success: false, data, message: String::from_str(message) }
    }
}

/// An HTTP status code and the envelope sent with it.
pub struct Reply<T> {
    pub status: u16,
    pub body: ApiResponse<T>,
}

/// The limit a recent-readings request uses.
pub fn recent_limit(requested: Option<usize>) -> (r: usize)
    ensures
        r == match requested {
            Some(n) => n,
            None => RECENT_LIMIT,
        },
{
    match requested {
        Some(n) => n,
        None => RECENT_LIMIT,
    }
}

/// The liveness answer: always a success.
pub fn health_check() -> (r: Reply<String>)
    ensures
        r.status == STATUS_OK,
        r.body.success,
        r.body.data@ == "Server is running"@,
        r.body.message@ == "Success"@,
{
    Reply { status: STATUS_OK, body: ApiResponse::success(String::from_str("Server is running")) }
}

/// The answer to a latest-reading query: the row with 200, 404 when there is
/// none, 500 when the store failed.
pub fn latest_reply(outcome: Result<Option<SensorData>, StoreError>) -> (r: Reply<
    Option<SensorData>,
>)
    ensures
        r.body.data == match outcome {
            Ok(d) => d,
            Err(_) => None,
        },
        r.body.success == outcome matches Ok(Some(_)),
        r.status == match outcome {
            Ok(Some(_)) => STATUS_OK,
            Ok(None) => STATUS_NOT_FOUND,
            Err(_) => STATUS_SERVER_ERROR,
        },
        r.body.message@ == match outcome {
            Ok(Some(_)) => "Success"@,
            Ok(None) => "No sensor data found"@,
            Err(_) => "Database error"@,
        },
{
    match outcome {
        Ok(Some(d)) => Reply { status: STATUS_OK, body: ApiResponse::success(Some(d)) },
        Ok(None) => Reply {
            status: STATUS_NOT_FOUND,
            body: ApiResponse::failure(None, "No sensor data found"),
        },
        Err(_) => Reply {
            status: STATUS_SERVER_ERROR,
            body: ApiResponse::failure(None, "Database error"),
        },
    }
}

/// The answer to a recent-readings query: the rows with 200 (possibly none),
/// 500 with no rows when the store failed.
pub fn recent_reply(outcome: Result<Vec<SensorData>, StoreError>) -> (r: Reply<Vec<SensorData>>)
    ensures
        r.body.data@ == match outcome {
            Ok(v) => v@,
            Err(_) => Seq::empty(),
        },
        r.body.success == outcome is Ok,
        r.status == if outcome is Ok {
            STATUS_OK
        } else {
            STATUS_SERVER_ERROR
        },
        r.body.message@ == if outcome is Ok {
            "Success"@
        } else {
            "Database error"@
        },
{
    match outcome {
        Ok(v) => Reply { status: STATUS_OK, body: ApiResponse::success(v) },
        Err(_) => Reply {
            status: STATUS_SERVER_ERROR,
            body: ApiResponse::failure(Vec::new(), "Database error"),
        },
    }
}

/// Serves the latest reading from a store.
pub fn get_latest_record(store: &ReadingStore) -> (r: Reply<Option<SensorData>>)
    ensures
        latest_of(store@, r.body.data),
        r.status == if store@.len() == 0 {
            STATUS_NOT_FOUND
        } else {
            STATUS_OK
        },
        r.body.success == (store@.len() > 0),
        r.body.message@ == if store@.len() == 0 {
            "No sensor data found"@
        } else {
            "Success"@
        },
{
    latest_reply(Ok(store.latest()))
}

/// Serves the most recent readings from a store, newest first, up to the
/// default limit.
pub fn get_all_records(store: &ReadingStore) -> (r: Reply<Vec<SensorData>>)
    ensures
        recent_of(store@, RECENT_LIMIT as nat, r.body.data@),
        r.status == STATUS_OK,
        r.body.success,
        r.body.message@ == "Success"@,
{
    recent_reply(Ok(store.recent(RECENT_LIMIT)))
}

} // verus!
