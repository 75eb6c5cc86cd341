//! What values are in contracts: field by field what they hold, and nothing else.
use crate::arbitrium_env;
use crate::arbitrium_env::ArbitriumEnv;
use crate::arbitrium_env::VarError;
use crate::edgegap_context::ArbitriumContext;
use crate::json;
use crate::nats_setup;
use crate::nats_setup::BucketConfig;
use crate::nats_setup::CaSource;
use crate::nats_setup::ConnectPlan;
use crate::nats_setup::ConnectRefusal;
use crate::plugin::NatsAction;
use crate::plugin::NatsActionView;
use crate::plugin::Parts;
use crate::plugin::ReadinessStep;
use crate::plugin::ReadinessStepView;
use crate::private_key;
use crate::private_key::KeyError;
use crate::protocol;
use crate::protocol::DeploymentMetrics;
use crate::protocol::RoomSelection;
use crate::protocol::RoomSelectionView;
use crate::session_request;
use crate::session_request::DecodeError;
use crate::session_request::Reply;
use crate::session_request::ServiceError;
use crate::session_request::ServiceNames;
use crate::session_request::SessionRequest;
use crate::session_service::PostRejection;
use crate::session_service::ResponderAction;
use crate::session_service::Seat;
use crate::session_service::Session;
use crate::session_service::SessionError;
use crate::session_service::SessionResponse;
use crate::session_service::Stage;
use crate::session_service::Ticket;
use crate::token;
use crate::token::TokenError;
use vstd::prelude::*;

verus! {

/// The room that a client wants is the one that it asked for, by the very text.
pub proof fn law_rooms(s: String)
    ensures
        RoomSelection::Auto@ == RoomSelectionView::Auto,
        RoomSelection::New@ == RoomSelectionView::New,
        RoomSelection::Code(s)@ == RoomSelectionView::Code(s@),
        RoomSelection::Id(s)@ == RoomSelectionView::Id(s@),
{
}

/// Names that were accepted are those very names, and a message is that very message.
pub proof fn law_names(game: String, version: String, message: String)
    ensures
        protocol::names_result(Ok((game, version))) == Ok::<_, Seq<char>>((game@, version@)),
        protocol::names_result(Err(message)) == Err::<(Seq<char>, Seq<char>), _>(message@),
{
}

/// The parts of an announcement are those that there are.
pub proof fn law_parts(parts: Parts)
    ensures
        parts@.context is Some <==> parts.context is Some,
        parts.context is Some ==> parts@.context == Some(parts.context->0.entries()),
        parts@.digest is Some <==> parts.digest is Some,
        parts.digest is Some ==> parts@.digest == Some(parts.digest->0@),
        parts@.has_nats == parts.has_nats,
        parts@.has_sender == parts.has_sender,
{
}

/// What is done about an announcement is told as it is.
pub proof fn law_announcements(
    missing: String,
    changed: bool,
    keys: Vec<String>,
    digest: String,
    context: ArbitriumContext,
)
    ensures
        ReadinessStep::Done@ == ReadinessStepView::Done,
        (ReadinessStep::Waiting { missing, changed })@ == (ReadinessStepView::Waiting {
            missing: missing@,
            changed,
        }),
        (ReadinessStep::Publish { keys, digest, context })@ == (ReadinessStepView::Publish {
            keys: keys@.map_values(|key: String| key@),
            digest: digest@,
            context: context.entries(),
        }),
{
}

/// How the matchmaker is told is told as it is.
pub proof fn law_tellings(a: String, b: String, bytes: Vec<u8>, keys: Vec<String>, metrics:
    DeploymentMetrics)
    ensures
        (NatsAction::FindSession { key: a })@ == (NatsActionView::FindSession { key: a@ }),
        NatsAction::NoSession@ == NatsActionView::NoSession,
        NatsAction::BadSession@ == NatsActionView::BadSession,
        (NatsAction::PutConnection { session_id: a, client_id: b })@ == (
        NatsActionView::PutConnection { session_id: a@, client_id: b@ }),
        (NatsAction::DeleteConnection { session_id: a })@ == (NatsActionView::DeleteConnection {
            session_id: a@,
        }),
        NatsAction::NotConnected@ == NatsActionView::NotConnected,
        (NatsAction::PublishContext { subject: a, payload: bytes })@ == (
        NatsActionView::PublishContext { subject: a@, payload: bytes@ }),
        (NatsAction::PutDigest { keys, digest: a })@ == (NatsActionView::PutDigest {
            keys: keys@.map_values(|key: String| key@),
            digest: a@,
        }),
        (NatsAction::PutMetrics { key: a, metrics })@ == (NatsActionView::PutMetrics {
            key: a@,
            metrics: metrics@,
        }),
{
}

/// A refusal of a session, and every other error, holds its very text.
pub proof fn law_session_errors(s: String, rejection: PostRejection<String>)
    ensures
        PostRejection::Status400(s)@ == PostRejection::Status400(s@),
        PostRejection::Status401(s)@ == PostRejection::Status401(s@),
        PostRejection::Status409(s)@ == PostRejection::Status409(s@),
        PostRejection::<String>::Unrecognised@ == PostRejection::<Seq<char>>::Unrecognised,
        SessionError::Response(rejection)@ == SessionError::Response(rejection@),
        SessionError::Request(s)@ == SessionError::Request(s@),
        SessionError::Io(s)@ == SessionError::Io(s@),
{
}

/// What a client is told holds the very token, address, port and digest.
pub proof fn law_responses(response: SessionResponse<String>)
    ensures
        response@.connect_token == response.connect_token@,
        response@.gameserver_ip == response.gameserver_ip@,
        response@.gameserver_port == response.gameserver_port,
        response@.cert_digest == response.cert_digest@,
{
}

/// What is done for a request is told as it is.
pub proof fn law_actions(
    a: String,
    b: String,
    url: Option<String>,
    n: u64,
    port: u16,
    response: SessionResponse<String>,
    error: SessionError<String>,
)
    ensures
        (ResponderAction::Post { app_name: a, client_ip: b, webhook_url: url })@ == (
        ResponderAction::Post {
            app_name: a@,
            client_ip: b@,
            webhook_url: match url {
                Some(s) => Some(s@),
                None => None,
            },
        }),
        ResponderAction::<String>::Sleep(n)@ == ResponderAction::<Seq<char>>::Sleep(n),
        (ResponderAction::Fetch { session_id: a })@ == (ResponderAction::Fetch { session_id: a@ }),
        (ResponderAction::RecordUnclaimed { session_id: a })@ == (
        ResponderAction::RecordUnclaimed { session_id: a@ }),
        ResponderAction::<String>::DrawClientId@ == ResponderAction::<Seq<char>>::DrawClientId,
        (ResponderAction::ReadAddress { public_ip: a, port })@ == (ResponderAction::ReadAddress {
            public_ip: a@,
            port,
        }),
        (ResponderAction::GetDigest { key: a })@ == (ResponderAction::GetDigest { key: a@ }),
        ResponderAction::<String>::ReadClock@ == ResponderAction::<Seq<char>>::ReadClock,
        ResponderAction::<String>::SleepDigestInterval@ == ResponderAction::<
            Seq<char>,
        >::SleepDigestInterval,
        (ResponderAction::IssueToken { address: a, client: n })@ == (ResponderAction::IssueToken {
            address: a@,
            client: n,
        }),
        (ResponderAction::StoreClient { client_id: a, session_id: b })@ == (
        ResponderAction::StoreClient { client_id: a@, session_id: b@ }),
        (ResponderAction::StoreSession { session_id: a, client_id: b })@ == (
        ResponderAction::StoreSession { session_id: a@, client_id: b@ }),
        ResponderAction::Finish(Ok(response))@ == ResponderAction::Finish(Ok(response@)),
        ResponderAction::Finish(Err(error))@ == ResponderAction::Finish(Err(error@)),
        ResponderAction::<String>::Wait@ == ResponderAction::<Seq<char>>::Wait,
{
}

/// A server, and the seat of a client on it, are what they hold.
pub proof fn law_seats(seat: Seat<String>)
    ensures
        seat@.ticket.session_id == seat.ticket.session_id@,
        seat@.ticket.request_id == seat.ticket.request_id@,
        seat@.ticket.public_ip == seat.ticket.public_ip@,
        seat@.ticket.port == seat.ticket.port,
        seat@.ticket == seat.ticket@,
        seat@.client_id == seat.client_id,
        seat@.address == seat.address@,
{
}

/// How far a request has come is told as it is, up to the session.
pub proof fn law_early_stages(created: String, tries: u32, recorded: bool, session: Session)
    ensures
        Stage::<String>::AwaitPost@ == Stage::<Seq<char>>::AwaitPost,
        (Stage::AwaitPollDelay { created, tries, recorded })@ == (Stage::AwaitPollDelay {
            created: created@,
            tries,
            recorded,
        }),
        (Stage::AwaitFetch { created, tries, recorded })@ == (Stage::AwaitFetch {
            created: created@,
            tries,
            recorded,
        }),
        (Stage::AwaitRecorded { created, tries, session })@ == (Stage::AwaitRecorded {
            created: created@,
            tries,
            session,
        }),
        Stage::<String>::Finished@ == Stage::<Seq<char>>::Finished,
{
}

/// How far a request has come is told as it is, from the session on.
pub proof fn law_late_stages(
    ticket: Ticket<String>,
    client_id: u64,
    seat: Seat<String>,
    attempts: u32,
    index: usize,
    last_error: Option<String>,
    cert_digest: String,
    connect_token: String,
)
    ensures
        ({
            let error = match last_error {
                Some(s) => Some(s@),
                None => None,
            };
            &&& (Stage::AwaitClientId { ticket })@ == (Stage::AwaitClientId { ticket: ticket@ })
            &&& (Stage::AwaitAddress { ticket, client_id })@ == (Stage::AwaitAddress {
                ticket: ticket@,
                client_id,
            })
            &&& (Stage::AwaitDigest { seat, attempts, index, last_error })@ == (
            Stage::AwaitDigest { seat: seat@, attempts, index, last_error: error })
            &&& (Stage::AwaitClock { seat, attempts, last_error })@ == (Stage::AwaitClock {
                seat: seat@,
                attempts,
                last_error: error,
            })
            &&& (Stage::AwaitDigestDelay { seat, attempts, last_error })@ == (
            Stage::AwaitDigestDelay { seat: seat@, attempts, last_error: error })
            &&& (Stage::AwaitToken { seat, cert_digest })@ == (Stage::AwaitToken {
                seat: seat@,
                cert_digest: cert_digest@,
            })
            &&& (Stage::AwaitClientStored { seat, cert_digest, connect_token })@ == (
            Stage::AwaitClientStored {
                seat: seat@,
                cert_digest: cert_digest@,
                connect_token: connect_token@,
            })
            &&& (Stage::AwaitSessionStored { seat, cert_digest, connect_token })@ == (
            Stage::AwaitSessionStored {
                seat: seat@,
                cert_digest: cert_digest@,
                connect_token: connect_token@,
            })
        }),
{
}

/// What the service goes by are those very names.
pub proof fn law_service_names(names: ServiceNames<String>)
    ensures
        names@.service == names.service@,
        names@.group == names.group@,
        names@.endpoint == names.endpoint@,
        names@.queue == names.queue@,
{
}

/// A request that was read is what was read, and an error is that very error.
pub proof fn law_requests(request: SessionRequest, message: String)
    ensures
        session_request::request_result(Ok(request)) == Ok::<_, DecodeError<Seq<char>>>(
            (request.client_ip@, json::object_of(request.obj)),
        ),
        session_request::request_result(Err(DecodeError::NotAnObject(message))) == Err::<
            session_request::RequestView,
            _,
        >(DecodeError::NotAnObject(message@)),
        session_request::request_result(Err(DecodeError::MissingClientIp)) == Err::<
            session_request::RequestView,
            _,
        >(DecodeError::<Seq<char>>::MissingClientIp),
        session_request::request_result(Err(DecodeError::ClientIpNotAString)) == Err::<
            session_request::RequestView,
            _,
        >(DecodeError::<Seq<char>>::ClientIpNotAString),
{
}

/// An answer is the very text, or the very code and status.
pub proof fn law_replies(payload: String, error: ServiceError<String>)
    ensures
        error@.code == error.code,
        error@.status == error.status@,
        Reply::Payload(payload)@ == Reply::Payload(payload@),
        Reply::Error(error)@ == Reply::Error(error@),
        Reply::<String>::Silence@ == Reply::<Seq<char>>::Silence,
{
}

/// What came of a session is the very text, or that there is none, or the error.
pub proof fn law_outcomes(payload: String, error: SessionError<String>)
    ensures
        session_request::outcome_of(Ok(Some(payload))) == Ok::<_, SessionError<Seq<char>>>(
            Some(payload@),
        ),
        session_request::outcome_of(Ok(None)) == Ok::<_, SessionError<Seq<char>>>(
            None::<Seq<char>>,
        ),
        session_request::outcome_of(Err(error)) == Err::<Option<Seq<char>>, _>(error@),
{
}

/// What a bucket is created with is what it holds.
pub proof fn law_buckets(config: BucketConfig<String>)
    ensures
        config@.bucket == config.bucket@,
        config@.description == config.description@,
        config@.max_value_size == config.max_value_size,
        config@.max_age == config.max_age,
{
}

/// The certificate authority is at the very path, or has the very contents, in a file of that name.
pub proof fn law_authorities(path: String, file_name: String, contents: String)
    ensures
        CaSource::<String>::Trusted@ == CaSource::<Seq<char>>::Trusted,
        CaSource::Path(path)@ == CaSource::Path(path@),
        (CaSource::Contents { file_name, contents })@ == (CaSource::Contents {
            file_name: file_name@,
            contents: contents@,
        }),
{
}

/// How to connect is what the plan holds, and a refusal is that very refusal.
pub proof fn law_plans(plan: ConnectPlan<String>, refusal: ConnectRefusal)
    ensures
        plan@.name == plan.name@,
        plan@.host == plan.host@,
        plan@.user == plan.user@,
        plan@.password == plan.password@,
        plan@.require_tls == plan.require_tls,
        plan@.max_reconnects == plan.max_reconnects,
        nats_setup::plan_result(Ok(plan)) == Ok::<_, ConnectRefusal>(plan@),
        nats_setup::plan_result(Err(refusal)) == Err::<ConnectPlan<Seq<char>>, _>(refusal),
{
}

/// What a deployment is told is what it holds, and an error is that very error.
pub proof fn law_environments(env: ArbitriumEnv, error: VarError)
    ensures
        env@.request_id == env.request_id@,
        env@.delete_url == env.delete_url@,
        env@.delete_token == env.delete_token@,
        env@.deployment_location == env.deployment_location@,
        env@.context_url == env.context_url@,
        env@.context_token == env.context_token@,
        env@.public_ip == env.public_ip@,
        env@.ports_mapping == env.ports_mapping@,
        env@.local_context == env.local_context,
        arbitrium_env::env_result(Ok(env)) == Ok::<_, VarError>(env@),
        arbitrium_env::env_result(Err(error)) == Err::<arbitrium_env::ArbitriumEnvView, _>(error),
{
}

/// A token is the very text, and an error holds the very cause.
pub proof fn law_tokens(connect_token: String, cause: String, error: TokenError<String>)
    ensures
        TokenError::Generate(cause)@ == TokenError::Generate(cause@),
        TokenError::Serialize(cause)@ == TokenError::Serialize(cause@),
        token::token_result(Ok(connect_token)) == Ok::<_, TokenError<Seq<char>>>(connect_token@),
        token::token_result(Err(error)) == Err::<Seq<char>, _>(error@),
{
}

/// A key is its very bytes, and an error is that very error.
pub proof fn law_keys(key: [u8; token::PRIVATE_KEY_BYTES], error: KeyError)
    ensures
        private_key::key_result(Ok(key)) == Ok::<_, KeyError>(key@),
        private_key::key_result(Err(error)) == Err::<Seq<u8>, _>(error),
{
}

} // verus!
