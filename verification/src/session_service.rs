//! Serving session requests.
//!
//! A request is decoded, a session is created and polled through the Edgegap API, the certificate
//! digest of its server is looked up, a connect token is issued, and the client is told where to
//! connect. The outside work is done elsewhere: [`Responder`] says what to do next, and takes what
//! came of it.
//!
//! Types with a parameter `T` hold `String` in the program and `Seq<char>` in contracts.
use crate::nats;
use crate::text;
use crate::token;
use crate::token::TokenError;
use vstd::prelude::*;
use vstd::string::*;
use vstd::utf8::*;

verus! {

/// Time between two polls of a session, in milliseconds.
pub const POLL_DELAY_MS: u64 = 200;

/// A session that is not ready after more polls than this is given up.
pub const MAX_POLLS: u32 = 50;

// ---------------------------------------------------------------------------
// What comes in
// ---------------------------------------------------------------------------

/// What a session is asked for with, and what its token is made from.
#[derive(Debug)]
pub struct ResponderConfig {
    /// The Edgegap application.
    pub app_name: String,
    /// Where Edgegap reports session events to.
    pub session_webhook_url: Option<String>,
    /// The address of the client that wants a session.
    pub client_ip: String,
    /// The netcode protocol id.
    pub protocol_id: u64,
    /// The key that connect tokens are sealed with.
    pub private_key: [u8; token::PRIVATE_KEY_BYTES],
    /// How long to look for a certificate digest, in nanoseconds.
    pub cert_digest_timeout: u64,
}

/// The deployment that a session is placed on.
#[derive(Debug)]
pub struct Deployment {
    pub request_id: String,
    pub public_ip: String,
    /// The external port of each port mapping, in the order in which the mappings are listed.
    pub ports: Option<Vec<Option<i32>>>,
}

/// A session, as the Edgegap API describes it.
#[derive(Debug)]
pub struct Session {
    pub session_id: String,
    pub ready: bool,
    pub deployment: Option<Deployment>,
}

/// The error body of a refused session.
#[derive(Debug, PartialEq, Eq)]
pub enum PostRejection<T> {
    Status400(T),
    Status401(T),
    Status409(T),
    /// There was no body, or one of another kind.
    Unrecognised,
}

/// Why there is no session.
#[derive(Debug, PartialEq, Eq)]
pub enum SessionError<T> {
    /// The Edgegap API refused to create it.
    Response(PostRejection<T>),
    /// The Edgegap API could not be asked. The text is the cause.
    Request(T),
    /// A later step failed. The text is the message.
    Io(T),
}

/// What a client is told when its session is ready.
#[derive(Debug, PartialEq, Eq)]
pub struct SessionResponse<T> {
    pub connect_token: T,
    pub gameserver_ip: T,
    pub gameserver_port: u16,
    pub cert_digest: T,
}

/// What came of an action. An error is given by its message.
#[derive(Debug)]
pub enum ResponderEvent {
    /// The session was created, under this id, or not.
    Posted(Result<String, SessionError<String>>),
    /// The delay is over.
    Slept,
    /// The session was fetched.
    Fetched(Result<Session, String>),
    /// The session was recorded as unclaimed.
    Recorded(Result<(), String>),
    /// A client id was drawn.
    ClientId(u64),
    /// The address was read; this is the socket address.
    Address(Result<String, String>),
    /// The digest was looked up.
    Digest(Result<Option<Vec<u8>>, String>),
    /// The time since the digest was first looked for, in nanoseconds.
    Elapsed(u64),
    /// The token was issued.
    Token(Result<String, TokenError<String>>),
    /// The client's entry was stored.
    ClientStored(Result<(), String>),
    /// The session's entry was stored.
    SessionStored(Result<(), String>),
}

// ---------------------------------------------------------------------------
// What goes out
// ---------------------------------------------------------------------------

/// What to do next.
#[derive(Debug, PartialEq, Eq)]
pub enum ResponderAction<T> {
    /// Create a session for one client.
    Post { app_name: T, client_ip: T, webhook_url: Option<T> },
    /// Wait for so many milliseconds.
    Sleep(u64),
    /// Fetch the session.
    Fetch { session_id: T },
    /// Store the session id under itself in the unclaimed sessions.
    RecordUnclaimed { session_id: T },
    /// Draw a client id.
    DrawClientId,
    /// Read the address, and put it together with the port.
    ReadAddress { public_ip: T, port: u16 },
    /// Look up a certificate digest.
    GetDigest { key: T },
    /// Tell the time since the digest was first looked for.
    ReadClock,
    /// Wait for the interval between two rounds of looking for the digest.
    SleepDigestInterval,
    /// Issue a connect token.
    IssueToken { address: T, client: u64 },
    /// Map the client id to the session id.
    StoreClient { client_id: T, session_id: T },
    /// Map the session id to the client id.
    StoreSession { session_id: T, client_id: T },
    /// Answer the request.
    Finish(Result<SessionResponse<T>, SessionError<T>>),
    /// Nothing.
    Wait,
}

/// The server that a session is on.
#[derive(Debug, PartialEq, Eq)]
pub struct Ticket<T> {
    pub session_id: T,
    pub request_id: T,
    pub public_ip: T,
    pub port: u16,
}

/// The server, the client id and the socket address that a token is for.
#[derive(Debug, PartialEq, Eq)]
pub struct Seat<T> {
    pub ticket: Ticket<T>,
    pub client_id: u64,
    pub address: T,
}

/// How far a request has come, by what it waits for.
#[derive(Debug)]
pub enum Stage<T> {
    AwaitPost,
    AwaitPollDelay { created: T, tries: u32, recorded: bool },
    AwaitFetch { created: T, tries: u32, recorded: bool },
    AwaitRecorded { created: T, tries: u32, session: Session },
    AwaitClientId { ticket: Ticket<T> },
    AwaitAddress { ticket: Ticket<T>, client_id: u64 },
    AwaitDigest { seat: Seat<T>, attempts: u32, index: usize, last_error: Option<T> },
    AwaitClock { seat: Seat<T>, attempts: u32, last_error: Option<T> },
    AwaitDigestDelay { seat: Seat<T>, attempts: u32, last_error: Option<T> },
    AwaitToken { seat: Seat<T>, cert_digest: T },
    AwaitClientStored { seat: Seat<T>, cert_digest: T, connect_token: T },
    AwaitSessionStored { seat: Seat<T>, cert_digest: T, connect_token: T },
    Finished,
}

// ---------------------------------------------------------------------------
// Views
// ---------------------------------------------------------------------------

impl View for PostRejection<String> {
    type V = PostRejection<Seq<char>>;

    open spec fn view(&self) -> PostRejection<Seq<char>> {
        match self {
            PostRejection::Status400(message) => PostRejection::Status400(message@),
            PostRejection::Status401(message) => PostRejection::Status401(message@),
            PostRejection::Status409(message) => PostRejection::Status409(message@),
            PostRejection::Unrecognised => PostRejection::Unrecognised,
        }
    }
}

impl View for SessionError<String> {
    type V = SessionError<Seq<char>>;

    open spec fn view(&self) -> SessionError<Seq<char>> {
        match self {
            SessionError::Response(rejection) => SessionError::Response(rejection@),
            SessionError::Request(cause) => SessionError::Request(cause@),
            SessionError::Io(message) => SessionError::Io(message@),
        }
    }
}

impl View for SessionResponse<String> {
    type V = SessionResponse<Seq<char>>;

    open spec fn view(&self) -> SessionResponse<Seq<char>> {
        SessionResponse {
            connect_token: self.connect_token@,
            gameserver_ip: self.gameserver_ip@,
            gameserver_port: self.gameserver_port,
            cert_digest: self.cert_digest@,
        }
    }
}

impl View for ResponderAction<String> {
    type V = ResponderAction<Seq<char>>;

    open spec fn view(&self) -> ResponderAction<Seq<char>> {
        match self {
            ResponderAction::Post { app_name, client_ip, webhook_url } => ResponderAction::Post {
                app_name: app_name@,
                client_ip: client_ip@,
                webhook_url: text::opt_text(*webhook_url),
            },
            ResponderAction::Sleep(millis) => ResponderAction::Sleep(*millis),
            ResponderAction::Fetch { session_id } => ResponderAction::Fetch {
                session_id: session_id@,
            },
            ResponderAction::RecordUnclaimed { session_id } => ResponderAction::RecordUnclaimed {
                session_id: session_id@,
            },
            ResponderAction::DrawClientId => ResponderAction::DrawClientId,
            ResponderAction::ReadAddress { public_ip, port } => ResponderAction::ReadAddress {
                public_ip: public_ip@,
                port: *port,
            },
            ResponderAction::GetDigest { key } => ResponderAction::GetDigest { key: key@ },
            ResponderAction::ReadClock => ResponderAction::ReadClock,
            ResponderAction::SleepDigestInterval => ResponderAction::SleepDigestInterval,
            ResponderAction::IssueToken { address, client } => ResponderAction::IssueToken {
                address: address@,
                client: *client,
            },
            ResponderAction::StoreClient { client_id, session_id } => ResponderAction::StoreClient {
                client_id: client_id@,
                session_id: session_id@,
            },
            ResponderAction::StoreSession { session_id, client_id } =>
                ResponderAction::StoreSession {
                session_id: session_id@,
                client_id: client_id@,
            },
            ResponderAction::Finish(Ok(response)) => ResponderAction::Finish(Ok(response@)),
            ResponderAction::Finish(Err(error)) => ResponderAction::Finish(Err(error@)),
            ResponderAction::Wait => ResponderAction::Wait,
        }
    }
}

impl View for Ticket<String> {
    type V = Ticket<Seq<char>>;

    open spec fn view(&self) -> Ticket<Seq<char>> {
        Ticket {
            session_id: self.session_id@,
            request_id: self.request_id@,
            public_ip: self.public_ip@,
            port: self.port,
        }
    }
}

impl View for Seat<String> {
    type V = Seat<Seq<char>>;

    open spec fn view(&self) -> Seat<Seq<char>> {
        Seat { ticket: self.ticket@, client_id: self.client_id, address: self.address@ }
    }
}

impl View for Stage<String> {
    type V = Stage<Seq<char>>;

    open spec fn view(&self) -> Stage<Seq<char>> {
        match self {
            Stage::AwaitPost => Stage::AwaitPost,
            Stage::AwaitPollDelay { created, tries, recorded } => Stage::AwaitPollDelay {
                created: created@,
                tries: *tries,
                recorded: *recorded,
            },
            Stage::AwaitFetch { created, tries, recorded } => Stage::AwaitFetch {
                created: created@,
                tries: *tries,
                recorded: *recorded,
            },
            Stage::AwaitRecorded { created, tries, session } => Stage::AwaitRecorded {
                created: created@,
                tries: *tries,
                session: *session,
            },
            Stage::AwaitClientId { ticket } => Stage::AwaitClientId { ticket: ticket@ },
            Stage::AwaitAddress { ticket, client_id } => Stage::AwaitAddress {
                ticket: ticket@,
                client_id: *client_id,
            },
            Stage::AwaitDigest { seat, attempts, index, last_error } =>
                Stage::AwaitDigest {
                seat: seat@,
                attempts: *attempts,
                index: *index,
                last_error: text::opt_text(*last_error),
            },
            Stage::AwaitClock { seat, attempts, last_error } => Stage::AwaitClock {
                seat: seat@,
                attempts: *attempts,
                last_error: text::opt_text(*last_error),
            },
            Stage::AwaitDigestDelay { seat, attempts, last_error } =>
                Stage::AwaitDigestDelay {
                seat: seat@,
                attempts: *attempts,
                last_error: text::opt_text(*last_error),
            },
            Stage::AwaitToken { seat, cert_digest } => Stage::AwaitToken {
                seat: seat@,
                cert_digest: cert_digest@,
            },
            Stage::AwaitClientStored { seat, cert_digest, connect_token } =>
                Stage::AwaitClientStored {
                seat: seat@,
                cert_digest: cert_digest@,
                connect_token: connect_token@,
            },
            Stage::AwaitSessionStored { seat, cert_digest, connect_token } =>
                Stage::AwaitSessionStored {
                seat: seat@,
                cert_digest: cert_digest@,
                connect_token: connect_token@,
            },
            Stage::Finished => Stage::Finished,
        }
    }
}

// ---------------------------------------------------------------------------
// Steps
// ---------------------------------------------------------------------------

/// Where a request goes on, and what is done for it there.
pub type Step = (Stage<Seq<char>>, ResponderAction<Seq<char>>);

/// The request fails with `message`.
pub open spec fn failed(message: Seq<char>) -> Step {
    (Stage::Finished, ResponderAction::Finish(Err(SessionError::Io(message))))
}

/// The session is ready: its first external port is the one to connect to.
pub open spec fn located(session: Session) -> Step {
    match session.deployment {
        None => failed("deployment not found"@),
        Some(deployment) => match deployment.ports {
            None => failed("No ports found in deployment!"@),
            Some(ports) => if ports@.len() == 0 || ports@[0] is None {
                failed("No external port found in deployment"@)
            } else if !(0 <= ports@[0]->0 <= u16::MAX) {
                failed("Invalid external port"@)
            } else {
                (
                    Stage::AwaitClientId {
                        ticket: Ticket {
                            session_id: session.session_id@,
                            request_id: deployment.request_id@,
                            public_ip: deployment.public_ip@,
                            port: ports@[0]->0 as u16,
                        },
                    },
                    ResponderAction::DrawClientId,
                )
            },
        },
    }
}

/// The session has been recorded: go on where it is ready, else poll again or give up.
pub open spec fn polled(created: Seq<char>, tries: u32, session: Session) -> Step {
    if session.ready {
        located(session)
    } else if tries > MAX_POLLS {
        failed("session not ready timeout on tries"@)
    } else {
        (
            Stage::AwaitPollDelay { created, tries, recorded: true },
            ResponderAction::Sleep(POLL_DELAY_MS),
        )
    }
}

/// The keys that the certificate digest of a server is looked up under.
pub open spec fn digest_keys(ticket: Ticket<Seq<char>>) -> Seq<Seq<char>> {
    nats::lookup_keys(Some(ticket.request_id), ticket.public_ip, Some(ticket.port))
}

/// Look the digest up under the key at `index`, or look at the clock where there is no such key.
pub open spec fn next_key(
    seat: Seat<Seq<char>>,
    attempts: u32,
    index: int,
    last_error: Option<Seq<char>>,
) -> Step {
    let keys = digest_keys(seat.ticket);
    if index < keys.len() {
        (
            Stage::AwaitDigest { seat, attempts, index: index as usize, last_error },
            ResponderAction::GetDigest { key: keys[index] },
        )
    } else {
        (Stage::AwaitClock { seat, attempts, last_error }, ResponderAction::ReadClock)
    }
}

/// The message when no digest was found in time.
pub open spec fn digest_timeout_message(
    keys: Seq<Seq<char>>,
    attempts: u32,
    elapsed: u64,
    last_error: Option<Seq<char>>,
) -> Seq<char> {
    "Failed to get cert digest from KV for keys: "@ + text::joined(keys, ","@) + " after "@
        + text::decimal(attempts as nat) + " attempts over "@ + text::duration_text(elapsed) + (
    match last_error {
        Some(error) => "; last NATS error="@ + error,
        None => Seq::<char>::empty(),
    })
}

/// The answer once everything is in place.
pub open spec fn answer(
    seat: Seat<Seq<char>>,
    cert_digest: Seq<char>,
    connect_token: Seq<char>,
) -> SessionResponse<Seq<char>> {
    SessionResponse {
        connect_token,
        gameserver_ip: seat.ticket.public_ip,
        gameserver_port: seat.ticket.port,
        cert_digest,
    }
}

/// How a request begins: by creating a session.
pub open spec fn begun(config: ResponderConfig) -> Step {
    (
        Stage::AwaitPost,
        ResponderAction::Post {
            app_name: config.app_name@,
            client_ip: config.client_ip@,
            webhook_url: text::opt_text(config.session_webhook_url),
        },
    )
}

/// How a request goes on from `state` with `event`. An event that `state` does not wait for
/// changes nothing.
pub open spec fn advanced(
    config: ResponderConfig,
    state: Stage<Seq<char>>,
    event: ResponderEvent,
) -> Step {
    match (state, event) {
        (Stage::AwaitPost, ResponderEvent::Posted(Ok(id))) => (
            Stage::AwaitPollDelay { created: id@, tries: 0, recorded: false },
            ResponderAction::Sleep(POLL_DELAY_MS),
        ),
        (Stage::AwaitPost, ResponderEvent::Posted(Err(error))) => (
            Stage::Finished,
            ResponderAction::Finish(Err(error@)),
        ),
        (Stage::AwaitPollDelay { created, tries, recorded }, ResponderEvent::Slept) => (
            Stage::AwaitFetch { created, tries: (tries + 1) as u32, recorded },
            ResponderAction::Fetch { session_id: created },
        ),
        (
            Stage::AwaitFetch { created, tries, recorded },
            ResponderEvent::Fetched(Ok(session)),
        ) => if recorded {
            polled(created, tries, session)
        } else {
            (
                Stage::AwaitRecorded { created, tries, session },
                ResponderAction::RecordUnclaimed { session_id: session.session_id@ },
            )
        },
        (Stage::AwaitFetch { .. }, ResponderEvent::Fetched(Err(error))) => failed(
            "get session error: "@ + error@,
        ),
        (
            Stage::AwaitRecorded { created, tries, session },
            ResponderEvent::Recorded(Ok(_)),
        ) => polled(created, tries, session),
        (Stage::AwaitRecorded { .. }, ResponderEvent::Recorded(Err(error))) => failed(
            "Failed to put session_id in unclaimed_sessions KV: "@ + error@,
        ),
        (Stage::AwaitClientId { ticket }, ResponderEvent::ClientId(client_id)) => (
            Stage::AwaitAddress { ticket, client_id },
            ResponderAction::ReadAddress { public_ip: ticket.public_ip, port: ticket.port },
        ),
        (
            Stage::AwaitAddress { ticket, client_id },
            ResponderEvent::Address(Ok(address)),
        ) => next_key(Seat { ticket, client_id, address: address@ }, 1, 0, None),
        (Stage::AwaitAddress { ticket, .. }, ResponderEvent::Address(Err(error))) => failed(
            "Failed parsing server ip "@ + ticket.public_ip + ": "@ + error@,
        ),
        (
            Stage::AwaitDigest { seat, attempts, index, last_error },
            ResponderEvent::Digest(Ok(Some(digest))),
        ) => if valid_utf8(digest@) {
            (
                Stage::AwaitToken { seat, cert_digest: decode_utf8(digest@) },
                ResponderAction::IssueToken { address: seat.address, client: seat.client_id },
            )
        } else {
            failed(
                "Cert digest for key "@ + digest_keys(seat.ticket)[index as int] + " is not utf8: "@
                    + text::utf8_error(digest@),
            )
        },
        (
            Stage::AwaitDigest { seat, attempts, index, last_error },
            ResponderEvent::Digest(Ok(None)),
        ) => next_key(seat, attempts, index + 1, last_error),
        (
            Stage::AwaitDigest { seat, attempts, index, .. },
            ResponderEvent::Digest(Err(error)),
        ) => next_key(seat, attempts, index + 1, Some(error@)),
        (
            Stage::AwaitClock { seat, attempts, last_error },
            ResponderEvent::Elapsed(elapsed),
        ) => if elapsed >= config.cert_digest_timeout {
            failed(
                digest_timeout_message(digest_keys(seat.ticket), attempts, elapsed, last_error),
            )
        } else {
            (
                Stage::AwaitDigestDelay { seat, attempts, last_error },
                ResponderAction::SleepDigestInterval,
            )
        },
        (
            Stage::AwaitDigestDelay { seat, attempts, last_error },
            ResponderEvent::Slept,
        ) => next_key(seat, (attempts + 1) as u32, 0, last_error),
        (
            Stage::AwaitToken { seat, cert_digest },
            ResponderEvent::Token(Ok(connect_token)),
        ) => (
            Stage::AwaitClientStored { seat, cert_digest, connect_token: connect_token@ },
            ResponderAction::StoreClient {
                client_id: text::decimal(seat.client_id as nat),
                session_id: seat.ticket.session_id,
            },
        ),
        (
            Stage::AwaitToken { .. },
            ResponderEvent::Token(Err(TokenError::Generate(cause))),
        ) => failed("Failed to generate token: "@ + cause@),
        (
            Stage::AwaitToken { .. },
            ResponderEvent::Token(Err(TokenError::Serialize(cause))),
        ) => failed("Failed to serialize token: "@ + cause@),
        (
            Stage::AwaitClientStored { seat, cert_digest, connect_token },
            ResponderEvent::ClientStored(Ok(_)),
        ) => (
            Stage::AwaitSessionStored { seat, cert_digest, connect_token },
            ResponderAction::StoreSession {
                session_id: seat.ticket.session_id,
                client_id: text::decimal(seat.client_id as nat),
            },
        ),
        (
            Stage::AwaitClientStored { .. },
            ResponderEvent::ClientStored(Err(error)),
        ) => failed("Failed to put token KV entry: "@ + error@),
        (
            Stage::AwaitSessionStored { seat, cert_digest, connect_token },
            ResponderEvent::SessionStored(Ok(_)),
        ) => (
            Stage::Finished,
            ResponderAction::Finish(Ok(answer(seat, cert_digest, connect_token))),
        ),
        (
            Stage::AwaitSessionStored { .. },
            ResponderEvent::SessionStored(Err(error)),
        ) => failed("Failed to put token KV entry: "@ + error@),
        _ => (state, ResponderAction::Wait),
    }
}

/// What holds of every state that a request comes through.
pub open spec fn is_valid(state: Stage<Seq<char>>) -> bool {
    match state {
        Stage::AwaitPollDelay { tries, recorded, .. } => tries <= MAX_POLLS && (tries > 0
            <==> recorded),
        Stage::AwaitFetch { tries, recorded, .. } => 1 <= tries <= MAX_POLLS + 1 && (tries > 1
            <==> recorded),
        Stage::AwaitRecorded { tries, .. } => tries == 1,
        Stage::AwaitDigest { seat, index, .. } => index < digest_keys(seat.ticket).len(),
        _ => true,
    }
}

/// The rounds of looking for the digest can be counted on.
pub open spec fn can_go_on(state: Stage<Seq<char>>) -> bool {
    state matches Stage::AwaitDigestDelay { attempts, .. } ==> attempts < u32::MAX
}

fn concat2(a: &str, b: &str) -> (r: String)
    ensures
        r@ == a@ + b@,
{
    a.to_owned().concat(b)
}

fn fail(message: String) -> (r: (Stage<String>, ResponderAction<String>))
    ensures
        (r.0@, r.1@) == failed(message@),
{
    (Stage::Finished, ResponderAction::Finish(Err(SessionError::Io(message))))
}

fn locate(session: Session) -> (r: (Stage<String>, ResponderAction<String>))
    ensures
        (r.0@, r.1@) == located(session),
        is_valid(r.0@),
{
    match session.deployment {
        None => fail("deployment not found".to_owned()),
        Some(deployment) => match deployment.ports {
            None => fail("No ports found in deployment!".to_owned()),
            Some(ports) => {
                if ports.len() == 0 {
                    return fail("No external port found in deployment".to_owned());
                }
                match ports[0] {
                    None => fail("No external port found in deployment".to_owned()),
                    Some(port) => {
                        if port < 0 || port > 65535 {
                            return fail("Invalid external port".to_owned());
                        }
                        (
                            Stage::AwaitClientId {
                                ticket: Ticket {
                                    session_id: session.session_id,
                                    request_id: deployment.request_id,
                                    public_ip: deployment.public_ip,
                                    port: port as u16,
                                },
                            },
                            ResponderAction::DrawClientId,
                        )
                    },
                }
            },
        },
    }
}

fn poll(created: String, tries: u32, session: Session) -> (r: (
    Stage<String>,
    ResponderAction<String>,
))
    requires
        1 <= tries <= MAX_POLLS + 1,
    ensures
        (r.0@, r.1@) == polled(created@, tries, session),
        is_valid(r.0@),
{
    if session.ready {
        locate(session)
    } else if tries > MAX_POLLS {
        fail("session not ready timeout on tries".to_owned())
    } else {
        (
            Stage::AwaitPollDelay { created, tries, recorded: true },
            ResponderAction::Sleep(POLL_DELAY_MS),
        )
    }
}

fn keys_of(ticket: &Ticket<String>) -> (r: Vec<String>)
    ensures
        text::texts(r@) == digest_keys(ticket@),
{
    nats::cert_digest_lookup_keys(
        Some(ticket.request_id.as_str()),
        ticket.public_ip.as_str(),
        Some(ticket.port),
    )
}

fn look_up(seat: Seat<String>, attempts: u32, index: usize, last_error: Option<String>) -> (r: (
    Stage<String>,
    ResponderAction<String>,
))
    ensures
        (r.0@, r.1@) == next_key(seat@, attempts, index as int, text::opt_text(last_error)),
        is_valid(r.0@),
{
    let keys = keys_of(&seat.ticket);
    if index < keys.len() {
        let key = keys[index].clone();
        assert(text::texts(keys@)[index as int] == key@);
        (
            Stage::AwaitDigest { seat, attempts, index, last_error },
            ResponderAction::GetDigest { key },
        )
    } else {
        (Stage::AwaitClock { seat, attempts, last_error }, ResponderAction::ReadClock)
    }
}

fn timeout_message(
    ticket: &Ticket<String>,
    attempts: u32,
    elapsed: u64,
    last_error: Option<String>,
) -> (r: String)
    ensures
        r@ == digest_timeout_message(
            digest_keys(ticket@),
            attempts,
            elapsed,
            text::opt_text(last_error),
        ),
{
    let keys = keys_of(ticket);
    let all_keys = text::join(&keys, ",");
    let count = text::decimal_string(attempts as u64);
    let shown = text::show_duration(elapsed);
    let mut message = "Failed to get cert digest from KV for keys: ".to_owned();
    message.append(all_keys.as_str());
    message.append(" after ");
    message.append(count.as_str());
    message.append(" attempts over ");
    message.append(shown.as_str());
    match last_error {
        Some(error) => {
            let suffix = concat2("; last NATS error=", error.as_str());
            message.append(suffix.as_str());
        },
        None => {
            assert(message@ + Seq::<char>::empty() == message@);
        },
    }
    message
}

fn step(stage: Stage<String>, config: &ResponderConfig, event: ResponderEvent) -> (r: (
    Stage<String>,
    ResponderAction<String>,
))
    requires
        is_valid(stage@),
        can_go_on(stage@),
    ensures
        (r.0@, r.1@) == advanced(*config, stage@, event),
        is_valid(r.0@),
{
    match (stage, event) {
        (Stage::AwaitPost, ResponderEvent::Posted(Ok(id))) => (
            Stage::AwaitPollDelay { created: id, tries: 0, recorded: false },
            ResponderAction::Sleep(POLL_DELAY_MS),
        ),
        (Stage::AwaitPost, ResponderEvent::Posted(Err(error))) => (
            Stage::Finished,
            ResponderAction::Finish(Err(error)),
        ),
        (Stage::AwaitPollDelay { created, tries, recorded }, ResponderEvent::Slept) => {
            let session_id = created.clone();
            (
                Stage::AwaitFetch { created, tries: tries + 1, recorded },
                ResponderAction::Fetch { session_id },
            )
        },
        (
            Stage::AwaitFetch { created, tries, recorded },
            ResponderEvent::Fetched(Ok(session)),
        ) => {
            if recorded {
                poll(created, tries, session)
            } else {
                let session_id = session.session_id.clone();
                (
                    Stage::AwaitRecorded { created, tries, session },
                    ResponderAction::RecordUnclaimed { session_id },
                )
            }
        },
        (Stage::AwaitFetch { .. }, ResponderEvent::Fetched(Err(error))) => {
            fail(concat2("get session error: ", error.as_str()))
        },
        (
            Stage::AwaitRecorded { created, tries, session },
            ResponderEvent::Recorded(Ok(_)),
        ) => { poll(created, tries, session) },
        (Stage::AwaitRecorded { .. }, ResponderEvent::Recorded(Err(error))) => {
            fail(
                concat2("Failed to put session_id in unclaimed_sessions KV: ", error.as_str()),
            )
        },
        (Stage::AwaitClientId { ticket }, ResponderEvent::ClientId(client_id)) => {
            let public_ip = ticket.public_ip.clone();
            let port = ticket.port;
            (
                Stage::AwaitAddress { ticket, client_id },
                ResponderAction::ReadAddress { public_ip, port },
            )
        },
        (
            Stage::AwaitAddress { ticket, client_id },
            ResponderEvent::Address(Ok(address)),
        ) => { look_up(Seat { ticket, client_id, address }, 1, 0, None) },
        (Stage::AwaitAddress { ticket, .. }, ResponderEvent::Address(Err(error))) => {
            let mut message = concat2("Failed parsing server ip ", ticket.public_ip.as_str());
            message.append(": ");
            message.append(error.as_str());
            fail(message)
        },
        (
            Stage::AwaitDigest { seat, attempts, index, last_error },
            ResponderEvent::Digest(Ok(Some(digest))),
        ) => {
            match text::decode_utf8_bytes(digest) {
                Ok(cert_digest) => {
                    let address = seat.address.clone();
                    let client = seat.client_id;
                    (
                        Stage::AwaitToken { seat, cert_digest },
                        ResponderAction::IssueToken { address, client },
                    )
                },
                Err(error) => {
                    let keys = keys_of(&seat.ticket);
                    assert(text::texts(keys@)[index as int] == keys@[index as int]@);
                    let mut message = concat2("Cert digest for key ", keys[index].as_str());
                    message.append(" is not utf8: ");
                    message.append(error.as_str());
                    fail(message)
                },
            }
        },
        (
            Stage::AwaitDigest { seat, attempts, index, last_error },
            ResponderEvent::Digest(Ok(None)),
        ) => {
            look_up(seat, attempts, index + 1, last_error)
        },
        (
            Stage::AwaitDigest { seat, attempts, index, .. },
            ResponderEvent::Digest(Err(error)),
        ) => {
            look_up(seat, attempts, index + 1, Some(error))
        },
        (
            Stage::AwaitClock { seat, attempts, last_error },
            ResponderEvent::Elapsed(elapsed),
        ) => {
            if elapsed >= config.cert_digest_timeout {
                fail(timeout_message(&seat.ticket, attempts, elapsed, last_error))
            } else {
                (
                    Stage::AwaitDigestDelay { seat, attempts, last_error },
                    ResponderAction::SleepDigestInterval,
                )
            }
        },
        (
            Stage::AwaitDigestDelay { seat, attempts, last_error },
            ResponderEvent::Slept,
        ) => { look_up(seat, attempts + 1, 0, last_error) },
        (
            Stage::AwaitToken { seat, cert_digest },
            ResponderEvent::Token(Ok(connect_token)),
        ) => {
            let client_id = text::decimal_string(seat.client_id);
            let session_id = seat.ticket.session_id.clone();
            (
                Stage::AwaitClientStored { seat, cert_digest, connect_token },
                ResponderAction::StoreClient { client_id, session_id },
            )
        },
        (
            Stage::AwaitToken { .. },
            ResponderEvent::Token(Err(TokenError::Generate(cause))),
        ) => { fail(concat2("Failed to generate token: ", cause.as_str())) },
        (
            Stage::AwaitToken { .. },
            ResponderEvent::Token(Err(TokenError::Serialize(cause))),
        ) => { fail(concat2("Failed to serialize token: ", cause.as_str())) },
        (
            Stage::AwaitClientStored { seat, cert_digest, connect_token },
            ResponderEvent::ClientStored(Ok(_)),
        ) => {
            let client_id = text::decimal_string(seat.client_id);
            let session_id = seat.ticket.session_id.clone();
            (
                Stage::AwaitSessionStored { seat, cert_digest, connect_token },
                ResponderAction::StoreSession { session_id, client_id },
            )
        },
        (
            Stage::AwaitClientStored { .. },
            ResponderEvent::ClientStored(Err(error)),
        ) => { fail(concat2("Failed to put token KV entry: ", error.as_str())) },
        (
            Stage::AwaitSessionStored { seat, cert_digest, connect_token },
            ResponderEvent::SessionStored(Ok(_)),
        ) => (
            Stage::Finished,
            ResponderAction::Finish(
                Ok(
                    SessionResponse {
                        connect_token,
                        gameserver_ip: seat.ticket.public_ip,
                        gameserver_port: seat.ticket.port,
                        cert_digest,
                    },
                ),
            ),
        ),
        (
            Stage::AwaitSessionStored { .. },
            ResponderEvent::SessionStored(Err(error)),
        ) => { fail(concat2("Failed to put token KV entry: ", error.as_str())) },
        (state, _) => (state, ResponderAction::Wait),
    }
}

/// A request on its way.
#[derive(Debug)]
pub struct Responder {
    stage: Stage<String>,
}

impl View for Responder {
    type V = Stage<Seq<char>>;

    closed spec fn view(&self) -> Stage<Seq<char>> {
        self.stage@
    }
}

impl Responder {
    #[verifier::type_invariant]
    spec fn well_formed(self) -> bool {
        is_valid(self.stage@)
    }

    /// Begins a request.
    pub fn begin(config: &ResponderConfig) -> (r: (Self, ResponderAction<String>))
        ensures
            (r.0@, r.1@) == begun(*config),
    {
        (
            Responder { stage: Stage::AwaitPost },
            ResponderAction::Post {
                app_name: config.app_name.clone(),
                client_ip: config.client_ip.clone(),
                webhook_url: text::copy_opt(&config.session_webhook_url),
            },
        )
    }

    /// Whether the request can go on: whether one more round of looking for the digest can be
    /// counted.
    pub fn can_advance(&self) -> (r: bool)
        ensures
            r == can_go_on(self@),
    {
        match &self.stage {
            Stage::AwaitDigestDelay { attempts, .. } => *attempts < u32::MAX,
            _ => true,
        }
    }

    /// Goes on with what came of the last action.
    pub fn advance(self, config: &ResponderConfig, event: ResponderEvent) -> (r: (
        Self,
        ResponderAction<String>,
    ))
        requires
            can_go_on(self@),
        ensures
            (r.0@, r.1@) == advanced(*config, self@, event),
            is_valid(r.0@),
    {
        proof {
            use_type_invariant(&self);
        }
        let (stage, action) = step(self.stage, config, event);
        (Responder { stage }, action)
    }

    /// Whether the request has been answered.
    pub fn is_finished(&self) -> (r: bool)
        ensures
            r == (self@ is Finished),
    {
        match &self.stage {
            Stage::Finished => true,
            _ => false,
        }
    }
}

/// What may come of doing what an action asks for, where that takes no outside service.
pub open spec fn is_outcome(
    config: ResponderConfig,
    action: ResponderAction<Seq<char>>,
    outcome: Option<ResponderEvent>,
) -> bool {
    match action {
        ResponderAction::DrawClientId => outcome matches Some(ResponderEvent::ClientId(_)),
        ResponderAction::IssueToken { address, client } =>
            outcome matches Some(ResponderEvent::Token(issued)) && (
        issued matches Ok(connect_token) ==> token::is_connect_token(
            connect_token@,
            address,
            config.protocol_id,
            client,
            config.private_key@,
        )),
        _ => outcome is None,
    }
}

/// Does what an action asks for, where that takes no outside service: draws a client id, or issues
/// a token. Any id may be drawn, and a token may fail to be issued.
pub fn perform(config: &ResponderConfig, action: &ResponderAction<String>) -> (r: Option<
    ResponderEvent,
>)
    ensures
        is_outcome(*config, action@, r),
        match *action {
            ResponderAction::DrawClientId => r matches Some(ResponderEvent::ClientId(_)),
            ResponderAction::IssueToken { address, client } =>
                r matches Some(ResponderEvent::Token(issued)) && (issued matches Ok(connect_token)
                    ==> token::is_connect_token(
                connect_token@,
                address@,
                config.protocol_id,
                client,
                config.private_key@,
            )),
            _ => r is None,
        },
{
    match action {
        ResponderAction::DrawClientId => Some(ResponderEvent::ClientId(token::random_u64())),
        ResponderAction::IssueToken { address, client } => Some(
            ResponderEvent::Token(
                token::issue_token(
                    address.as_str(),
                    config.protocol_id,
                    *client,
                    config.private_key,
                ),
            ),
        ),
        _ => None,
    }
}

} // verus!
