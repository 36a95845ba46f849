//! Application configuration and the uniform response envelope.

use vstd::prelude::*;
use vstd::string::StringExecFns;

verus! {

/// Listening port and document-store connection settings.
pub struct AppConfig {
    pub port: String,
    pub mongodb_uri: String,
    pub mongodb_database: String,
}

impl AppConfig {
    /// Builds a configuration from optional overrides, falling back to the
    /// built-in defaults where an override is absent.
    pub fn with_defaults(
        port: Option<String>,
        mongodb_uri: Option<String>,
        mongodb_database: Option<String>,
    ) -> (r: AppConfig)
        ensures
            r.port@ == (match port {
                Some(p) => p@,
                None => "4300"@,
            }),
            r.mongodb_uri@ == (match mongodb_uri {
                Some(u) => u@,
                None => "mongodb://localhost:27017"@,
            }),
            r.mongodb_database@ == (match mongodb_database {
                Some(d) => d@,
                None => "todo-app"@,
            }),
    {
        let port = match port {
            Some(p) => p,
            None => String::from_str("4300"),
        };
        let mongodb_uri = match mongodb_uri {
            Some(u) => u,
            None => String::from_str("mongodb://localhost:27017"),
        };
        let mongodb_database = match mongodb_database {
            Some(d) => d,
            None => String::from_str("todo-app"),
        };
        AppConfig { port, mongodb_uri, mongodb_database }
    }
}

/// The request headers the service reads.
pub struct ApiHeader {
    pub authorization: Option<String>,
    pub cookie: Option<String>,
}

/// The uniform envelope every response is wrapped in: a numeric code
/// (0 for success), the payload, and a human-readable message
/// (empty on success).
#[derive(Debug)]
pub struct ApiResponse<T> {
    pub code: u32,
    pub data: T,
    pub msg: String,
}

impl<T> ApiResponse<T> {
    /// Wraps a payload in a success envelope: code 0 and an empty message.
    pub fn success(data: T) -> (r: ApiResponse<T>)
        ensures
            r.code == 0,
            r.data == data,
            r.msg@ == Seq::<char>::empty(),
    {
        ApiResponse { code: 0, data, msg: String::new() }
    }
}

impl ApiResponse<String> {
    /// Builds an error envelope: the given code and message, and an empty
    /// payload.
    pub fn error(code: u32, msg: &str) -> (r: ApiResponse<String>)
        ensures
            r.code == code,
            r.data@ == Seq::<char>::empty(),
            r.msg@ == msg@,
    {
        ApiResponse { code, data: String::new(), msg: String::from_str(msg) }
    }
}

} // verus!
