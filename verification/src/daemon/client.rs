//! The client's side of the conversation with the daemon.
use vstd::prelude::*;

use crate::daemon::protocol::{Request, Response, PROTOCOL_VERSION};
use crate::duration::Duration;
use crate::json::Value;
use crate::paths::{utf8_lossy, FsPath};
use crate::text::{decimal, decimal_text, join2, slice_text, to_chars};

verus! {

/// Seconds that a client waits for a response.
pub const DEFAULT_TIMEOUT_SECS: u64 = 60;

/// How long a client waits for a response.
pub fn default_timeout() -> (r: Duration)
    ensures
        r == (Duration { secs: DEFAULT_TIMEOUT_SECS, nanos: 0 }),
{
    Duration::from_secs(DEFAULT_TIMEOUT_SECS)
}

/// Why a connection to the daemon failed.
#[derive(Debug, Clone, Copy, PartialEq, Eq, Structural)]
pub enum ConnectFailure {
    /// There is no socket.
    NotFound,
    /// Nothing listens on the socket.
    ConnectionRefused,
    /// Anything else.
    Other,
}

/// Whether a failed connection means that no daemon runs.
pub fn daemon_is_absent(failure: ConnectFailure) -> (r: bool)
    ensures
        r == (failure != ConnectFailure::Other),
{
    match failure {
        ConnectFailure::NotFound => true,
        ConnectFailure::ConnectionRefused => true,
        ConnectFailure::Other => false,
    }
}

/// One conversation with the daemon.
#[derive(Debug)]
pub struct DaemonClient {
    next_id: u64,
}

/// The parameters that name a mount point.
pub open spec fn names_mount_point(params: Value, mount_point: Seq<char>) -> bool {
    &&& params is Object
    &&& params->Object_0@.len() == 1
    &&& params->Object_0@[0].0@ == "mountpoint"@
    &&& params->Object_0@[0].1.chars() == Some(mount_point)
}

/// The text without line ends behind it.
pub open spec fn without_line_end(s: Seq<char>) -> Seq<char>
    decreases s.len(),
{
    if s.len() > 0 && (s.last() == '\r' || s.last() == '\n') {
        without_line_end(s.drop_last())
    } else {
        s
    }
}

/// Removes line ends behind a text.
pub fn trim_line_end(line: &str) -> (r: String)
    ensures
        r@ == without_line_end(line@),
{
    let chars = to_chars(line);
    let mut end: usize = chars.len();
    assert(chars@.take(end as int) =~= chars@);
    while end > 0 && (chars[end - 1] == '\r' || chars[end - 1] == '\n')
        invariant
            end <= chars@.len(),
            without_line_end(chars@) == without_line_end(chars@.take(end as int)),
        decreases end,
    {
        assert(chars@.take(end as int).drop_last() =~= chars@.take(end - 1));
        end -= 1;
    }
    assert(chars@.subrange(0, end as int) =~= chars@.take(end as int));
    slice_text(&chars, 0, end)
}

impl DaemonClient {
    /// The number of the next request.
    pub closed spec fn upcoming(&self) -> u64 {
        self.next_id
    }

    /// A conversation that begins.
    pub fn new() -> (r: DaemonClient)
        ensures
            r.upcoming() == 1,
    {
        DaemonClient { next_id: 1 }
    }

    /// The next request.
    pub fn request(&mut self, method: &str, params: Option<Value>) -> (r: Request)
        ensures
            r.v == PROTOCOL_VERSION,
            r.id == old(self).upcoming(),
            r.method@ == method@,
            r.params == params,
            final(self).upcoming() == old(self).upcoming().wrapping_add(1),
    {
        let id: u64 = self.next_id;
        self.next_id = self.next_id.wrapping_add(1);
        Request::new(id, method, params)
    }
}

/// The parameters that name a mount point.
pub fn mount_point_params(mount_point: &FsPath) -> (r: Value)
    ensures
        names_mount_point(r, utf8_lossy(mount_point@)),
{
    let mut entries: Vec<(String, Value)> = Vec::new();
    entries.push(("mountpoint".to_owned(), Value::Text(mount_point.display())));
    Value::Object(entries)
}

/// The method that mounts with a backend.
pub fn mount_method(backend: &str) -> (r: String)
    ensures
        r@ == "mount."@ + backend@,
{
    join2("mount.", backend)
}

/// The text of a response, given how many bytes were read: none mean that the
/// daemon hung up.
pub fn response_line(bytes: usize, buffer: &str) -> (r: Result<String, String>)
    ensures
        match r {
            Ok(line) => bytes > 0 && line@ == without_line_end(buffer@),
            Err(error) => bytes == 0 && error@ == "daemon closed the connection"@,
        },
{
    if bytes == 0 {
        Err("daemon closed the connection".to_owned())
    } else {
        Ok(trim_line_end(buffer))
    }
}

/// What a client says of a response in another version.
pub open spec fn daemon_version_message(v: nat) -> Seq<char> {
    "protocol version mismatch: daemon v="@ + decimal(v) + ", client v="@ + decimal(
        PROTOCOL_VERSION as nat,
    )
}

/// The result in a response, or why there is none.
pub open spec fn response_meaning(response: Response) -> Result<Value, Seq<char>> {
    if response.v != PROTOCOL_VERSION {
        Err(daemon_version_message(response.v as nat))
    } else if response.error is Some {
        Err(response.error->0.message@)
    } else {
        match response.result {
            Some(value) => Ok(value),
            None => Err("daemon response had neither result nor error"@),
        }
    }
}

/// Reads a response: gives the result in it, or why there is none.
pub fn accept_response(response: Response) -> (r: Result<Value, String>)
    ensures
        match r {
            Ok(value) => response_meaning(response) == Ok::<Value, Seq<char>>(value),
            Err(message) => response_meaning(response) == Err::<Value, Seq<char>>(message@),
        },
{
    if response.v != PROTOCOL_VERSION {
        let mut message = join2(
            "protocol version mismatch: daemon v=",
            decimal_text(response.v as u64).as_str(),
        );
        message.append(", client v=");
        message.append(decimal_text(PROTOCOL_VERSION as u64).as_str());
        return Err(message);
    }
    match response.error {
        Some(error) => Err(error.message),
        None => match response.result {
            Some(value) => Ok(value),
            None => Err("daemon response had neither result nor error".to_owned()),
        },
    }
}

/// Requests carry the current version, their method and their parameters, and are
/// numbered one after the other.
pub proof fn law_requests_are_numbered(
    fresh: DaemonClient,
    client: &mut DaemonClient,
    method: &str,
    params: Option<Value>,
    r: Request,
    id: u64,
    made: Request,
)
    requires
        call_ensures(DaemonClient::new, (), fresh),
        call_ensures(DaemonClient::request, (client, method, params), r),
        call_ensures(Request::new, (id, method, params), made),
    ensures
        fresh.upcoming() == 1,
        r.v == 1,
        r.id == old(client).upcoming(),
        r.method@ == method@,
        r.params == params,
        old(client).upcoming() < u64::MAX ==> final(client).upcoming() == r.id + 1,
        made.v == 1,
        made.id == id,
        made.method@ == method@,
        made.params == params,
{
}

/// A path is named under `mountpoint`, alone, and a mount is asked for by the name
/// of its backend.
pub proof fn law_requests_name_paths_and_backends(
    mount_point: &FsPath,
    shown: String,
    params: Value,
    backend: &str,
    method: String,
)
    requires
        call_ensures(FsPath::display, (mount_point,), shown),
        call_ensures(mount_point_params, (mount_point,), params),
        call_ensures(mount_method, (backend,), method),
    ensures
        params matches Value::Object(entries) && entries@.len() == 1 && entries@[0].0@
            == "mountpoint"@ && (entries@[0].1 matches Value::Text(text) && text@ == shown@),
        method@ == "mount."@ + backend@,
{
}

/// Line ends behind a text go, and nothing else.
pub proof fn law_line_ends_go(line: &str, longer: &str, r: String, s: String)
    requires
        call_ensures(trim_line_end, (line,), r),
        call_ensures(trim_line_end, (longer,), s),
        longer@ == line@.push('\n') || longer@ == line@.push('\r'),
    ensures
        s@ == r@,
        line@.len() > 0 && line@.last() != '\n' && line@.last() != '\r' ==> r@ == line@,
        line@.len() == 0 ==> r@.len() == 0,
{
    assert(longer@.drop_last() =~= line@);
}

/// A line from the daemon is read without its line end; none means that the daemon
/// hung up.
pub proof fn law_hang_ups_are_told(
    bytes: usize,
    buffer: &str,
    trimmed: String,
    r: Result<String, String>,
)
    requires
        call_ensures(response_line, (bytes, buffer), r),
        call_ensures(trim_line_end, (buffer,), trimmed),
    ensures
        r is Ok <==> bytes > 0,
        r matches Ok(line) ==> line@ == trimmed@,
        r matches Err(error) ==> error@ == "daemon closed the connection"@,
{
}

/// A response is a result only in the current version and without an error; an
/// error is told with its message, another version with both versions, and a
/// response with neither as such.
pub proof fn law_responses_are_read(response: Response, r: Result<Value, String>)
    requires
        call_ensures(accept_response, (response,), r),
    ensures
        r is Ok <==> response.v == 1 && response.error is None && response.result is Some,
        r matches Ok(value) ==> response.result == Some(value),
        response.v == 1 && response.error is Some ==> r is Err && r->Err_0@
            == response.error->0.message@,
        response.v == 1 && response.error is None && response.result is None ==> r is Err
            && r->Err_0@ == "daemon response had neither result nor error"@,
        response.v != 1 ==> r is Err && r->Err_0@ == "protocol version mismatch: daemon v="@
            + decimal(response.v as nat) + ", client v="@ + decimal(1),
{
}

/// No daemon runs where there is no socket or nothing listens on it; a client
/// waits for an answer for a minute.
pub proof fn law_absent_daemons_are_known(
    failure: ConnectFailure,
    absent: bool,
    timeout: Duration,
)
    requires
        call_ensures(daemon_is_absent, (failure,), absent),
        call_ensures(default_timeout, (), timeout),
    ensures
        absent <==> failure is NotFound || failure is ConnectionRefused,
        timeout.secs == 60,
        timeout.nanos == 0,
{
}

} // verus!
