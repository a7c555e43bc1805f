//! Messages between clients and the daemon.
//!
//! Every message carries the version of the protocol. There is no negotiation:
//! another version is an error.
use vstd::prelude::*;

use crate::json::Value;
use crate::paths::FsPath;

verus! {

/// Version of the protocol.
pub const PROTOCOL_VERSION: u32 = 1;

/// A request to the daemon.
#[derive(Debug)]
pub struct Request {
    /// Version of the protocol.
    pub v: u32,
    /// Number that the response repeats.
    pub id: u64,
    /// Method.
    pub method: String,
    /// Parameters of the method.
    pub params: Option<Value>,
}

impl Request {
    /// A request in the current version.
    pub fn new(id: u64, method: &str, params: Option<Value>) -> (r: Request)
        ensures
            r.v == PROTOCOL_VERSION,
            r.id == id,
            r.method@ == method@,
            r.params == params,
    {
        Request { v: PROTOCOL_VERSION, id, method: method.to_owned(), params }
    }
}

/// A response of the daemon.
#[derive(Debug)]
pub struct Response {
    /// Version of the protocol.
    pub v: u32,
    /// Number of the request.
    pub id: u64,
    /// Result, where the request succeeded.
    pub result: Option<Value>,
    /// Error, where the request failed.
    pub error: Option<ErrorPayload>,
}

impl Response {
    /// Whether this is the error response with the given message.
    pub open spec fn fails_with(self, id: u64, message: Seq<char>) -> bool {
        &&& self.v == PROTOCOL_VERSION
        &&& self.id == id
        &&& self.result is None
        &&& self.error is Some
        &&& self.error->0.message@ == message
    }

    /// The response to a request that succeeded.
    pub fn ok(id: u64, result: Value) -> (r: Response)
        ensures
            r == (Response { v: PROTOCOL_VERSION, id, result: Some(result), error: None }),
    {
        Response { v: PROTOCOL_VERSION, id, result: Some(result), error: None }
    }

    /// The response to a request that failed.
    pub fn err(id: u64, message: &str) -> (r: Response)
        ensures
            r.fails_with(id, message@),
    {
        Response {
            v: PROTOCOL_VERSION,
            id,
            result: None,
            error: Some(ErrorPayload { message: message.to_owned() }),
        }
    }
}

/// An error as it is told to a client.
#[derive(Debug, Clone)]
pub struct ErrorPayload {
    /// Message for people.
    pub message: String,
}

/// A mount as `list` and `status` tell it.
#[derive(Debug)]
pub struct MountSummary {
    /// Backend.
    pub backend: String,
    /// Instance hash.
    pub instance: String,
    /// Mount point.
    pub mount_point: FsPath,
    /// Seconds since the mount started.
    pub age_secs: u64,
}

/// Result of `list`.
#[derive(Debug)]
pub struct ListResult {
    /// Mounts.
    pub mounts: Vec<MountSummary>,
}

/// Result of `status`.
#[derive(Debug)]
pub struct StatusResult {
    /// The mount, where the path is a mount point.
    pub mount: Option<MountSummary>,
    /// Number of files with local changes.
    pub dirty_files: u64,
    /// Share of reads that the cache answered, by the bits of the fraction,
    /// where it is known.
    pub cache_hit_ratio: Option<u64>,
}

/// Result of `unmount` and of the mount methods.
#[derive(Debug)]
pub struct AckResult {
    /// Mount point.
    pub mount_point: FsPath,
}

/// A response has the number of the request that it answers and carries either the
/// result or the message.
pub proof fn law_responses_answer_their_request(
    id: u64,
    result: Value,
    message: &str,
    done: Response,
    failed: Response,
)
    requires
        call_ensures(Response::ok, (id, result), done),
        call_ensures(Response::err, (id, message), failed),
    ensures
        done.v == 1 && failed.v == 1,
        done.id == id && failed.id == id,
        done.result == Some(result) && done.error is None,
        failed.result is None,
        failed.error matches Some(payload) && payload.message@ == message@,
{
}

/// A request carries its number, its method and its parameters.
pub proof fn law_requests_carry_what_is_asked(
    id: u64,
    method: &str,
    params: Option<Value>,
    r: Request,
)
    requires
        call_ensures(Request::new, (id, method, params), r),
    ensures
        r.v == 1,
        r.id == id,
        r.method@ == method@,
        r.params == params,
{
}

} // verus!
