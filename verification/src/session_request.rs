//! The session request service: its names, its requests and its replies.
use crate::json;
use crate::nats;
use crate::session_service::PostRejection;
use crate::session_service::SessionError;
use crate::session_service::SessionResponse;
use crate::text;
use vstd::prelude::*;
use vstd::string::*;
use vstd::utf8::*;

verus! {

/// How many handlers serve requests side by side.
pub const SESSION_HANDLERS: usize = 5;

// ---------------------------------------------------------------------------
// Names
// ---------------------------------------------------------------------------

/// What the service goes by.
#[derive(Debug, PartialEq, Eq)]
pub struct ServiceNames<T> {
    pub service: T,
    pub group: T,
    pub endpoint: T,
    pub queue: T,
}

impl View for ServiceNames<String> {
    type V = ServiceNames<Seq<char>>;

    open spec fn view(&self) -> ServiceNames<Seq<char>> {
        ServiceNames {
            service: self.service@,
            group: self.group@,
            endpoint: self.endpoint@,
            queue: self.queue@,
        }
    }
}

/// What the service goes by in a namespace.
pub open spec fn names_in(namespace: Option<Seq<char>>) -> ServiceNames<Seq<char>> {
    ServiceNames {
        service: nats::bucket_name(namespace, "gensession"@),
        group: nats::bucket_name(namespace, "session"@),
        endpoint: nats::bucket_name(namespace, "gensession"@),
        queue: nats::bucket_name(namespace, "session_queue"@),
    }
}

/// What the service goes by in a namespace.
pub fn service_names(namespace_var: Option<&str>) -> (r: ServiceNames<String>)
    ensures
        r@ == names_in(text::opt_str(namespace_var)),
        r@ == (ServiceNames {
            service: nats::bucket_name(text::opt_str(namespace_var), "gensession"@),
            group: nats::bucket_name(text::opt_str(namespace_var), "session"@),
            endpoint: nats::bucket_name(text::opt_str(namespace_var), "gensession"@),
            queue: nats::bucket_name(text::opt_str(namespace_var), "session_queue"@),
        }),
{
    ServiceNames {
        service: nats::nats_bucket_name(namespace_var, "gensession"),
        group: nats::nats_bucket_name(namespace_var, "session"),
        endpoint: nats::nats_bucket_name(namespace_var, "gensession"),
        queue: nats::nats_bucket_name(namespace_var, "session_queue"),
    }
}

// ---------------------------------------------------------------------------
// Requests
// ---------------------------------------------------------------------------

/// A request for a session.
#[derive(Debug)]
pub struct SessionRequest {
    /// The address of the client that wants a session.
    pub client_ip: String,
    /// The rest of the request, with no fixed schema.
    pub obj: serde_json::Map<String, serde_json::Value>,
}

/// Why a request cannot be read.
#[derive(Debug, PartialEq, Eq)]
pub enum DecodeError<T> {
    /// It is not a JSON object. The text says why.
    NotAnObject(T),
    /// It has no client address.
    MissingClientIp,
    /// Its client address is not a string.
    ClientIpNotAString,
}

impl View for DecodeError<String> {
    type V = DecodeError<Seq<char>>;

    open spec fn view(&self) -> DecodeError<Seq<char>> {
        match self {
            DecodeError::NotAnObject(message) => DecodeError::NotAnObject(message@),
            DecodeError::MissingClientIp => DecodeError::MissingClientIp,
            DecodeError::ClientIpNotAString => DecodeError::ClientIpNotAString,
        }
    }
}

/// A request in contracts: the client address, and the rest.
pub type RequestView = (Seq<char>, json::Entries);

/// What came of reading a request.
pub open spec fn request_result(result: Result<SessionRequest, DecodeError<String>>) -> Result<
    RequestView,
    DecodeError<Seq<char>>,
> {
    match result {
        Ok(request) => Ok((request.client_ip@, json::object_of(request.obj))),
        Err(error) => Err(error@),
    }
}

/// The request that an object is: its field `client_ip` is a string.
pub open spec fn request_in(object: Result<json::Entries, Seq<char>>) -> Result<
    RequestView,
    DecodeError<Seq<char>>,
> {
    match object {
        Ok(entries) => if !entries.contains_key("client_ip"@) {
            Err(DecodeError::MissingClientIp)
        } else {
            match entries["client_ip"@] {
                json::Json::Str(client_ip) => Ok((client_ip, entries.remove("client_ip"@))),
                _ => Err(DecodeError::ClientIpNotAString),
            }
        },
        Err(message) => Err(DecodeError::NotAnObject(message)),
    }
}

/// Takes the request out of an object.
pub fn read_request(object: Result<serde_json::Map<String, serde_json::Value>, String>) -> (r:
    Result<SessionRequest, DecodeError<String>>)
    ensures
        request_result(r) == request_in(json::object_result(object)),
{
    match object {
        Ok(entries) => {
            let mut obj = entries;
            match json::remove(&mut obj, "client_ip") {
                Some(value) => match json::as_str(&value) {
                    Some(client_ip) => Ok(SessionRequest { client_ip: client_ip.to_owned(), obj }),
                    None => Err(DecodeError::ClientIpNotAString),
                },
                None => Err(DecodeError::MissingClientIp),
            }
        },
        Err(message) => Err(DecodeError::NotAnObject(message)),
    }
}

/// Decodes a session request, which is a JSON object with a client_ip field.
pub fn decode_request(raw: &[u8]) -> (r: Result<SessionRequest, DecodeError<String>>)
    ensures
        request_result(r) == request_in(json::parsed_object(raw@)),
{
    read_request(json::parse_object(raw))
}

impl DecodeError<String> {
    /// What to write to the log.
    pub fn message(&self) -> (r: String)
        ensures
            r@ == (match self@ {
                DecodeError::NotAnObject(message) => message,
                DecodeError::MissingClientIp => "Missing client_ip field"@,
                DecodeError::ClientIpNotAString => "client_ip is not a string"@,
            }),
    {
        match self {
            DecodeError::NotAnObject(message) => message.clone(),
            DecodeError::MissingClientIp => "Missing client_ip field".to_owned(),
            DecodeError::ClientIpNotAString => "client_ip is not a string".to_owned(),
        }
    }
}

// ---------------------------------------------------------------------------
// Replies
// ---------------------------------------------------------------------------

/// The error that a request is answered with.
#[derive(Debug, PartialEq, Eq)]
pub struct ServiceError<T> {
    pub code: usize,
    pub status: T,
}

impl View for ServiceError<String> {
    type V = ServiceError<Seq<char>>;

    open spec fn view(&self) -> ServiceError<Seq<char>> {
        ServiceError { code: self.code, status: self.status@ }
    }
}

/// The answer when there is no session: what Edgegap answered, where it refused one, and else an
/// internal error that shows the cause.
pub open spec fn reply_to(error: SessionError<Seq<char>>, shown: Seq<char>) -> ServiceError<
    Seq<char>,
> {
    match error {
        SessionError::Response(PostRejection::Status400(message)) => ServiceError {
            code: 400,
            status: message,
        },
        SessionError::Response(PostRejection::Status401(message)) => ServiceError {
            code: 401,
            status: message,
        },
        SessionError::Response(PostRejection::Status409(message)) => ServiceError {
            code: 409,
            status: message,
        },
        SessionError::Response(PostRejection::Unrecognised) => ServiceError {
            code: 999,
            status: "unknown error"@,
        },
        _ => ServiceError { code: 500, status: "error generating session: "@ + shown },
    }
}

/// The answer when there is no session. `shown` is the error as the Edgegap client shows it.
pub fn error_reply(error: SessionError<String>, shown: &str) -> (r: ServiceError<String>)
    ensures
        r@ == reply_to(error@, shown@),
{
    match error {
        SessionError::Response(PostRejection::Status400(message)) => ServiceError {
            code: 400,
            status: message,
        },
        SessionError::Response(PostRejection::Status401(message)) => ServiceError {
            code: 401,
            status: message,
        },
        SessionError::Response(PostRejection::Status409(message)) => ServiceError {
            code: 409,
            status: message,
        },
        SessionError::Response(PostRejection::Unrecognised) => ServiceError {
            code: 999,
            status: "unknown error".to_owned(),
        },
        _ => ServiceError {
            code: 500,
            status: "error generating session: ".to_owned().concat(shown),
        },
    }
}

/// The answer to a request that cannot be read.
pub open spec fn undecoded() -> ServiceError<Seq<char>> {
    ServiceError { code: 400, status: "error decoding session request!"@ }
}

/// The answer to a request that cannot be read.
pub fn decode_error_reply() -> (r: ServiceError<String>)
    ensures
        r@ == undecoded(),
{
    ServiceError { code: 400, status: "error decoding session request!".to_owned() }
}

/// The request to serve, or the answer to one that cannot be read.
pub fn accept_request(decoded: Result<SessionRequest, DecodeError<String>>) -> (r: Result<
    SessionRequest,
    Reply<String>,
>)
    ensures
        match decoded {
            Ok(request) => r matches Ok(accepted) && accepted == request,
            Err(_) => r matches Err(reply) && reply@ == Reply::Error(undecoded()),
        },
{
    match decoded {
        Ok(request) => Ok(request),
        Err(_) => Err(Reply::Error(decode_error_reply())),
    }
}

/// How a request is answered.
#[derive(Debug, PartialEq, Eq)]
pub enum Reply<T> {
    /// With this text.
    Payload(T),
    /// With this error.
    Error(ServiceError<T>),
    /// Not at all.
    Silence,
}

impl View for Reply<String> {
    type V = Reply<Seq<char>>;

    open spec fn view(&self) -> Reply<Seq<char>> {
        match self {
            Reply::Payload(payload) => Reply::Payload(payload@),
            Reply::Error(error) => Reply::Error(error@),
            Reply::Silence => Reply::Silence,
        }
    }
}

/// What came of a session, in contracts.
pub open spec fn outcome_of(outcome: Result<Option<String>, SessionError<String>>) -> Result<
    Option<Seq<char>>,
    SessionError<Seq<char>>,
> {
    match outcome {
        Ok(payload) => Ok(text::opt_text(payload)),
        Err(error) => Err(error@),
    }
}

/// The answer to a request: the session, where it can be put into text, and else an error. A session
/// that cannot is not answered.
pub open spec fn replied(
    outcome: Result<Option<Seq<char>>, SessionError<Seq<char>>>,
    shown: Seq<char>,
) -> Reply<Seq<char>> {
    match outcome {
        Ok(Some(payload)) => Reply::Payload(payload),
        Ok(None) => Reply::Silence,
        Err(error) => Reply::Error(reply_to(error, shown)),
    }
}

/// The answer to a request. `outcome` is the session as JSON text, nothing where it could not be
/// put into text, or the error; `shown` is the error as the Edgegap client shows it.
pub fn reply(outcome: Result<Option<String>, SessionError<String>>, shown: &str) -> (r: Reply<
    String,
>)
    ensures
        r@ == replied(outcome_of(outcome), shown@),
{
    match outcome {
        Ok(Some(payload)) => Reply::Payload(payload),
        Ok(None) => Reply::Silence,
        Err(error) => Reply::Error(error_reply(error, shown)),
    }
}

/// A token as it is shown: by its length in bytes.
pub open spec fn summarized(connect_token: Seq<char>) -> Seq<char> {
    "SessionResponse { connect_token: ["@ + text::decimal(encode_utf8(connect_token).len())
        + " bytes] }"@
}

impl SessionResponse<String> {
    /// The answer as it is shown: without what it holds, but for the length of the token in bytes.
    pub fn summary(&self) -> (r: String)
        ensures
            r@ == summarized(self.connect_token@),
            r@ == "SessionResponse { connect_token: ["@ + text::decimal(
                encode_utf8(self.connect_token@).len(),
            ) + " bytes] }"@,
    {
        let length = text::byte_length(self.connect_token.as_str());
        let mut shown = "SessionResponse { connect_token: [".to_owned();
        let count = text::decimal_string(length as u64);
        shown.append(count.as_str());
        shown.append(" bytes] }");
        shown
    }
}

// ---------------------------------------------------------------------------
// Laws
// ---------------------------------------------------------------------------

/// An object is a request exactly where it has a client address that is a string. The address is
/// taken out as it is, and every other field is left as it is.
pub proof fn law_requests_are_read(entries: json::Entries, message: Seq<char>, key: Seq<char>)
    ensures
        ({
            let request = request_in(Ok(entries));
            let there = entries.contains_key("client_ip"@);
            &&& request is Ok <==> there && entries["client_ip"@] is Str
            &&& request matches Ok(read) ==> {
                &&& entries["client_ip"@] == json::Json::Str(read.0)
                &&& !read.1.contains_key("client_ip"@)
                &&& key != "client_ip"@ ==> {
                    &&& read.1.contains_key(key) <==> entries.contains_key(key)
                    &&& entries.contains_key(key) ==> read.1[key] == entries[key]
                }
            }
            &&& !there ==> request == Err::<RequestView, _>(
                DecodeError::<Seq<char>>::MissingClientIp,
            )
            &&& there && !(entries["client_ip"@] is Str) ==> request == Err::<RequestView, _>(
                DecodeError::<Seq<char>>::ClientIpNotAString,
            )
        }),
        request_in(Err(message)) == Err::<RequestView, _>(DecodeError::NotAnObject(message)),
{
}

/// What Edgegap refused a session with is passed on as it is, under the status that it came with. A
/// refusal of another kind has no message of its own, and every other failure is an internal error
/// that shows its cause.
pub proof fn law_errors_are_answered(message: Seq<char>, shown: Seq<char>)
    ensures
        ({
            let answer = |error: SessionError<Seq<char>>| reply_to(error, shown);
            let refused = |rejection: PostRejection<Seq<char>>|
                answer(SessionError::Response(rejection));
            &&& refused(PostRejection::Status400(message)).code == 400
            &&& refused(PostRejection::Status400(message)).status == message
            &&& refused(PostRejection::Status401(message)).code == 401
            &&& refused(PostRejection::Status401(message)).status == message
            &&& refused(PostRejection::Status409(message)).code == 409
            &&& refused(PostRejection::Status409(message)).status == message
            &&& refused(PostRejection::Unrecognised).code == 999
            &&& refused(PostRejection::Unrecognised).status == "unknown error"@
            &&& answer(SessionError::Request(message)).code == 500
            &&& answer(SessionError::Request(message)).status == "error generating session: "@
                + shown
            &&& answer(SessionError::Io(message)).code == 500
            &&& answer(SessionError::Io(message)).status == "error generating session: "@ + shown
        }),
        undecoded().code == 400,
        undecoded().status == "error decoding session request!"@,
{
}

/// A session is answered with its text as it is, an error with its answer, and a session that could
/// not be put into text not at all.
pub proof fn law_outcomes_are_answered(
    payload: Seq<char>,
    error: SessionError<Seq<char>>,
    shown: Seq<char>,
)
    ensures
        replied(Ok(Some(payload)), shown) == Reply::Payload(payload),
        replied(Ok(None), shown) is Silence,
        replied(Err(error), shown) == Reply::Error(reply_to(error, shown)),
{
}

/// The service, its group, its endpoint and its queue go by these names, behind the namespace and `_`
/// where there is one.
pub proof fn law_service_goes_by_these_names(namespace: Option<Seq<char>>)
    ensures
        ({
            let names = names_in(namespace);
            let under = |base: Seq<char>|
                match nats::namespace_of(namespace) {
                    Some(name) => name.push('_') + base,
                    None => base,
                };
            &&& names.service == under("gensession"@)
            &&& names.group == under("session"@)
            &&& names.endpoint == under("gensession"@)
            &&& names.queue == under("session_queue"@)
        }),
{
    if nats::namespace_of(namespace) is Some {
        nats::law_names_in_a_namespace(namespace, "gensession"@);
        nats::law_names_in_a_namespace(namespace, "session"@);
        nats::law_names_in_a_namespace(namespace, "session_queue"@);
    }
}

/// What is shown of a token is its length in bytes, which reads back, and nothing else of it.
pub proof fn law_summary_shows_the_length(connect_token: Seq<char>, other: Seq<char>)
    ensures
        ({
            let shown = summarized(connect_token);
            let length = encode_utf8(connect_token).len();
            &&& shown.take(34) == "SessionResponse { connect_token: ["@
            &&& shown.skip(shown.len() - 9) == " bytes] }"@
            &&& text::parsed_unsigned(shown.subrange(34, shown.len() - 9), length) == Some(length)
            &&& encode_utf8(other).len() == length ==> summarized(other) == shown
        }),
{
    reveal_strlit("SessionResponse { connect_token: [");
    reveal_strlit(" bytes] }");
    let length = encode_utf8(connect_token).len();
    let shown = summarized(connect_token);
    text::law_decimal_reads_back(length, length);
    assert(shown.take(34) == "SessionResponse { connect_token: ["@);
    assert(shown.skip(shown.len() - 9) == " bytes] }"@);
    assert(shown.subrange(34, shown.len() - 9) == text::decimal(length));
}

} // verus!
