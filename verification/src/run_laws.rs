//! What is done for a session request, said of what came in for it.
use crate::nats;
use crate::plugin;
use crate::plugin::NatsEvent;
use crate::session_laws;
use crate::session_service;
use crate::session_service::ResponderAction;
use crate::session_service::ResponderConfig;
use crate::session_service::ResponderEvent;
use crate::session_service::Session;
use crate::session_service::SessionError;
use crate::session_service::SessionResponse;
use crate::session_service::Stage;
use crate::text;
use crate::token;
use crate::token::TokenError;
use vstd::prelude::*;
use vstd::utf8::*;

verus! {

/// The state that the event at `j` found the request in.
#[verifier::opaque]
pub open spec fn awaited(
    config: ResponderConfig,
    events: Seq<ResponderEvent>,
    j: int,
) -> Stage<Seq<char>> {
    session_laws::run(config, events.take(j)).state
}

/// A session was created under `id`, at `j`.
pub open spec fn posted_at(
    config: ResponderConfig,
    events: Seq<ResponderEvent>,
    j: int,
    id: Seq<char>,
) -> bool {
    &&& 0 <= j < events.len()
    &&& awaited(config, events, j) is AwaitPost
    &&& (events[j] matches ResponderEvent::Posted(Ok(found)) && found@ == id)
}

/// `session` was fetched, at `j`.
pub open spec fn fetched_at(
    config: ResponderConfig,
    events: Seq<ResponderEvent>,
    j: int,
    session: Session,
) -> bool {
    &&& 0 <= j < events.len()
    &&& awaited(config, events, j) is AwaitFetch
    &&& events[j] == ResponderEvent::Fetched(Ok(session))
}

/// The client id was drawn, at `j`.
pub open spec fn drawn_at(
    config: ResponderConfig,
    events: Seq<ResponderEvent>,
    j: int,
    client: u64,
) -> bool {
    &&& 0 <= j < events.len()
    &&& awaited(config, events, j) is AwaitClientId
    &&& events[j] == ResponderEvent::ClientId(client)
}

/// The socket address was read, at `j`.
pub open spec fn read_at(
    config: ResponderConfig,
    events: Seq<ResponderEvent>,
    j: int,
    address: Seq<char>,
) -> bool {
    &&& 0 <= j < events.len()
    &&& awaited(config, events, j) is AwaitAddress
    &&& (events[j] matches ResponderEvent::Address(Ok(found)) && found@ == address)
}

/// The digest was found, at `j`.
pub open spec fn digest_at(
    config: ResponderConfig,
    events: Seq<ResponderEvent>,
    j: int,
    digest: Seq<char>,
) -> bool {
    &&& 0 <= j < events.len()
    &&& awaited(config, events, j) is AwaitDigest
    &&& (events[j] matches ResponderEvent::Digest(Ok(Some(found))) && valid_utf8(found@)
        && decode_utf8(found@) == digest)
}

/// The token was issued, at `j`.
pub open spec fn token_at(
    config: ResponderConfig,
    events: Seq<ResponderEvent>,
    j: int,
    connect_token: Seq<char>,
) -> bool {
    &&& 0 <= j < events.len()
    &&& awaited(config, events, j) is AwaitToken
    &&& (events[j] matches ResponderEvent::Token(Ok(found)) && found@ == connect_token)
}

/// `session` is ready, on a deployment at `public_ip` whose first port mapping is to `port`.
pub open spec fn is_served_at(session: Session, public_ip: Seq<char>, port: u16) -> bool {
    &&& session.ready
    &&& session.deployment is Some
    &&& session.deployment->0.public_ip@ == public_ip
    &&& session.deployment->0.ports is Some
    &&& session.deployment->0.ports->0@.len() > 0
    &&& session.deployment->0.ports->0@[0] is Some
    &&& session.deployment->0.ports->0@[0]->0 == port
}

// ---------------------------------------------------------------------------
// Groundwork
// ---------------------------------------------------------------------------

spec fn is_ticket_of(
    session: Session,
    ticket: session_service::Ticket<Seq<char>>,
) -> bool {
    &&& is_served_at(session, ticket.public_ip, ticket.port)
    &&& session.session_id@ == ticket.session_id
    &&& session.deployment->0.request_id@ == ticket.request_id
}

spec fn is_found(
    config: ResponderConfig,
    events: Seq<ResponderEvent>,
    ticket: session_service::Ticket<Seq<char>>,
) -> bool {
    exists|j: int, session: Session| #[trigger]
        fetched_at(config, events, j, session) && is_ticket_of(session, ticket)
}

spec fn is_drawn(config: ResponderConfig, events: Seq<ResponderEvent>, client: u64) -> bool {
    exists|j: int| drawn_at(config, events, j, client)
}

spec fn is_read(config: ResponderConfig, events: Seq<ResponderEvent>, address: Seq<char>) -> bool {
    exists|j: int| read_at(config, events, j, address)
}

spec fn is_seated(
    config: ResponderConfig,
    events: Seq<ResponderEvent>,
    seat: session_service::Seat<Seq<char>>,
) -> bool {
    &&& is_found(config, events, seat.ticket)
    &&& is_drawn(config, events, seat.client_id)
    &&& is_read(config, events, seat.address)
}

spec fn is_posted(config: ResponderConfig, events: Seq<ResponderEvent>, id: Seq<char>) -> bool {
    exists|j: int| posted_at(config, events, j, id)
}

spec fn is_fetched(config: ResponderConfig, events: Seq<ResponderEvent>, session: Session) -> bool {
    exists|j: int| fetched_at(config, events, j, session)
}

spec fn is_digested(
    config: ResponderConfig,
    events: Seq<ResponderEvent>,
    digest: Seq<char>,
) -> bool {
    exists|j: int| digest_at(config, events, j, digest)
}

spec fn is_issued(
    config: ResponderConfig,
    events: Seq<ResponderEvent>,
    connect_token: Seq<char>,
) -> bool {
    exists|j: int| token_at(config, events, j, connect_token)
}

spec fn grounded(
    config: ResponderConfig,
    events: Seq<ResponderEvent>,
    state: Stage<Seq<char>>,
) -> bool {
    match state {
        Stage::AwaitPollDelay { created, .. } => is_posted(config, events, created),
        Stage::AwaitFetch { created, .. } => is_posted(config, events, created),
        Stage::AwaitRecorded { created, session, .. } => {
            &&& is_posted(config, events, created)
            &&& is_fetched(config, events, session)
        },
        Stage::AwaitClientId { ticket } => is_found(config, events, ticket),
        Stage::AwaitAddress { ticket, client_id } => {
            &&& is_found(config, events, ticket)
            &&& is_drawn(config, events, client_id)
        },
        Stage::AwaitDigest { seat, .. } => is_seated(config, events, seat),
        Stage::AwaitClock { seat, .. } => is_seated(config, events, seat),
        Stage::AwaitDigestDelay { seat, .. } => is_seated(config, events, seat),
        Stage::AwaitToken { seat, cert_digest } => {
            &&& is_seated(config, events, seat)
            &&& is_digested(config, events, cert_digest)
        },
        Stage::AwaitClientStored { seat, cert_digest, connect_token } => {
            &&& is_seated(config, events, seat)
            &&& is_digested(config, events, cert_digest)
            &&& is_issued(config, events, connect_token)
        },
        Stage::AwaitSessionStored { seat, cert_digest, connect_token } => {
            &&& is_seated(config, events, seat)
            &&& is_digested(config, events, cert_digest)
            &&& is_issued(config, events, connect_token)
        },
        _ => true,
    }
}

proof fn lemma_awaited(config: ResponderConfig, events: Seq<ResponderEvent>, n: int)
    requires
        0 <= n <= events.len(),
    ensures
        forall|j: int|
            0 <= j <= n ==> #[trigger] awaited(config, events.take(n), j) == awaited(
                config,
                events,
                j,
            ),
        forall|j: int, id: Seq<char>| #[trigger]
            posted_at(config, events.take(n), j, id) ==> posted_at(config, events, j, id),
        forall|j: int, session: Session| #[trigger]
            fetched_at(config, events.take(n), j, session) ==> fetched_at(
                config,
                events,
                j,
                session,
            ),
        forall|j: int, client: u64| #[trigger]
            drawn_at(config, events.take(n), j, client) ==> drawn_at(config, events, j, client),
        forall|j: int, address: Seq<char>| #[trigger]
            read_at(config, events.take(n), j, address) ==> read_at(config, events, j, address),
        forall|j: int, digest: Seq<char>| #[trigger]
            digest_at(config, events.take(n), j, digest) ==> digest_at(config, events, j, digest),
        forall|j: int, connect_token: Seq<char>| #[trigger]
            token_at(config, events.take(n), j, connect_token) ==> token_at(
                config,
                events,
                j,
                connect_token,
            ),
{
    reveal(awaited);
    assert forall|j: int| 0 <= j <= n implies #[trigger] awaited(config, events.take(n), j)
        == awaited(config, events, j) by {
        assert(events.take(n).take(j) == events.take(j));
    }
}

proof fn lemma_grounded_more(
    config: ResponderConfig,
    events: Seq<ResponderEvent>,
    n: int,
    state: Stage<Seq<char>>,
)
    requires
        0 <= n <= events.len(),
        grounded(config, events.take(n), state),
    ensures
        grounded(config, events, state),
{
    lemma_awaited(config, events, n);
    let earlier = events.take(n);
    let ticket = match state {
        Stage::AwaitClientId { ticket } => Some(ticket),
        Stage::AwaitAddress { ticket, .. } => Some(ticket),
        _ => match session_laws::seat_of(state) {
            Some(seat) => Some(seat.ticket),
            None => None,
        },
    };
    if let Some(ticket) = ticket {
        let (j, session) = choose|j: int, session: Session| #[trigger]
            fetched_at(config, earlier, j, session) && is_ticket_of(session, ticket);
        assert(fetched_at(config, events, j, session));
    }
}

proof fn lemma_grounded(config: ResponderConfig, events: Seq<ResponderEvent>)
    ensures
        grounded(config, events, session_laws::run(config, events).state),
    decreases events.len(),
{
    if events.len() > 0 {
        let n = events.len() - 1;
        let earlier = events.take(n);
        assert(earlier == events.drop_last());
        lemma_grounded(config, earlier);
        let before = session_laws::run(config, earlier).state;
        lemma_grounded_more(config, events, n, before);
        let after = session_laws::run(config, events).state;
        assert(awaited(config, events, n) == before) by {
            reveal(awaited);
        }
        lemma_step_is_grounded(config, events, before, after);
    }
}

proof fn lemma_step_is_grounded(
    config: ResponderConfig,
    events: Seq<ResponderEvent>,
    before: Stage<Seq<char>>,
    after: Stage<Seq<char>>,
)
    requires
        events.len() > 0,
        awaited(config, events, events.len() - 1) == before,
        grounded(config, events, before),
        session_service::advanced(config, before, events.last()).0 == after,
    ensures
        grounded(config, events, after),
{
    let n = events.len() - 1;
    match (before, events.last()) {
        (Stage::AwaitPost, ResponderEvent::Posted(Ok(id))) => {
            assert(posted_at(config, events, n, id@));
        },
        (Stage::AwaitFetch { .. }, ResponderEvent::Fetched(Ok(session))) => {
            assert(fetched_at(config, events, n, session));
            if let Stage::AwaitClientId { ticket } = after {
                assert(is_ticket_of(session, ticket));
            }
        },
        (Stage::AwaitRecorded { session, .. }, ResponderEvent::Recorded(Ok(_))) => {
            let j = choose|j: int| fetched_at(config, events, j, session);
            assert(fetched_at(config, events, j, session));
            if let Stage::AwaitClientId { ticket } = after {
                assert(is_ticket_of(session, ticket));
            }
        },
        (Stage::AwaitClientId { .. }, ResponderEvent::ClientId(client)) => {
            assert(drawn_at(config, events, n, client));
        },
        (Stage::AwaitAddress { .. }, ResponderEvent::Address(Ok(address))) => {
            assert(read_at(config, events, n, address@));
        },
        (Stage::AwaitDigest { .. }, ResponderEvent::Digest(Ok(Some(digest)))) => {
            if valid_utf8(digest@) {
                assert(digest_at(config, events, n, decode_utf8(digest@)));
            }
        },
        (Stage::AwaitToken { .. }, ResponderEvent::Token(Ok(connect_token))) => {
            assert(token_at(config, events, n, connect_token@));
        },
        _ => {},
    }
}

proof fn lemma_action(config: ResponderConfig, events: Seq<ResponderEvent>, i: int)
    requires
        0 < i < session_laws::run(config, events).actions.len(),
    ensures
        i <= events.len(),
        session_service::advanced(config, awaited(config, events, i - 1), events[i - 1]) == (
            awaited(config, events, i),
            session_laws::run(config, events).actions[i],
        ),
        session_service::is_valid(awaited(config, events, i - 1)),
        grounded(config, events.take(i), awaited(config, events, i)),
        grounded(config, events.take(i - 1), awaited(config, events, i - 1)),
{
    reveal(awaited);
    session_laws::law_states_are_valid(config, events);
    session_laws::lemma_prefix(config, events, i);
    let past = events.take(i);
    session_laws::law_states_are_valid(config, past);
    session_laws::law_states_are_valid(config, events.take(i - 1));
    assert(past.drop_last() == events.take(i - 1));
    assert(past.last() == events[i - 1]);
    assert(session_laws::run(config, past).actions.last() == session_laws::run(
        config,
        events,
    ).actions.take(i + 1)[i]);
    lemma_grounded(config, past);
    lemma_grounded(config, events.take(i - 1));
}

// ---------------------------------------------------------------------------
// What is done
// ---------------------------------------------------------------------------

/// A request begins with asking for one session, for the application, the client and the webhook that
/// are configured; and no other session is ever asked for.
pub proof fn law_one_session_is_asked_for(
    config: ResponderConfig,
    events: Seq<ResponderEvent>,
    i: int,
)
    requires
        0 <= i < session_laws::run(config, events).actions.len(),
    ensures
        session_laws::run(config, events).actions[i] is Post <==> i == 0,
        session_laws::run(config, events).actions[0] == (ResponderAction::Post {
            app_name: config.app_name@,
            client_ip: config.client_ip@,
            webhook_url: match config.session_webhook_url {
                Some(url) => Some(url@),
                None => None,
            },
        }),
{
    session_laws::lemma_prefix(config, events, 0);
    session_laws::law_states_are_valid(config, events);
    assert(session_laws::run(config, events).actions.take(1)[0] == session_laws::run(
        config,
        events,
    ).actions[0]);
    if i > 0 {
        lemma_action(config, events, i);
    }
}

/// What is fetched is the session that was created, under the id that it was created with, once a
/// delay is over.
pub proof fn law_created_session_is_fetched(
    config: ResponderConfig,
    events: Seq<ResponderEvent>,
    i: int,
    session_id: Seq<char>,
)
    requires
        0 <= i < session_laws::run(config, events).actions.len(),
        session_laws::run(config, events).actions[i] == (ResponderAction::Fetch { session_id }),
    ensures
        i > 0,
        events[i - 1] is Slept,
        exists|j: int| 0 <= j < i && #[trigger] posted_at(config, events, j, session_id),
{
    law_one_session_is_asked_for(config, events, i);
    lemma_action(config, events, i);
    lemma_awaited(config, events, i);
    let j = choose|j: int| posted_at(config, events.take(i), j, session_id);
    assert(posted_at(config, events, j, session_id));
}

/// Every delay between two fetches is of 200 milliseconds.
pub proof fn law_polls_are_200_milliseconds_apart(
    config: ResponderConfig,
    events: Seq<ResponderEvent>,
    i: int,
    millis: u64,
)
    requires
        0 <= i < session_laws::run(config, events).actions.len(),
        session_laws::run(config, events).actions[i] == ResponderAction::<Seq<char>>::Sleep(millis),
    ensures
        millis == 200,
{
    law_one_session_is_asked_for(config, events, i);
    lemma_action(config, events, i);
}

/// What is recorded as unclaimed is a session that was just fetched, under its own id.
pub proof fn law_fetched_session_is_recorded(
    config: ResponderConfig,
    events: Seq<ResponderEvent>,
    i: int,
    session_id: Seq<char>,
)
    requires
        0 <= i < session_laws::run(config, events).actions.len(),
        session_laws::run(config, events).actions[i] == (ResponderAction::RecordUnclaimed {
            session_id,
        }),
    ensures
        i > 0,
        exists|session: Session| #[trigger]
            fetched_at(config, events, i - 1, session) && session.session_id@ == session_id,
{
    law_one_session_is_asked_for(config, events, i);
    lemma_action(config, events, i);
    session_laws::law_states_are_valid(config, events);
    if let ResponderEvent::Fetched(Ok(session)) = events[i - 1] {
        assert(fetched_at(config, events, i - 1, session));
    }
}

/// The address that is read is that of a session that was fetched and is ready: the address of its
/// deployment, and the port of its first port mapping.
pub proof fn law_address_is_of_the_ready_session(
    config: ResponderConfig,
    events: Seq<ResponderEvent>,
    i: int,
    public_ip: Seq<char>,
    port: u16,
)
    requires
        0 <= i < session_laws::run(config, events).actions.len(),
        session_laws::run(config, events).actions[i] == (ResponderAction::ReadAddress {
            public_ip,
            port,
        }),
    ensures
        exists|j: int, session: Session|
            0 <= j < i && #[trigger] fetched_at(config, events, j, session) && is_served_at(
                session,
                public_ip,
                port,
            ),
{
    law_one_session_is_asked_for(config, events, i);
    lemma_action(config, events, i);
    lemma_awaited(config, events, i);
    if let Stage::AwaitAddress { ticket, .. } = awaited(config, events, i) {
        let (j, session) = choose|j: int, session: Session| #[trigger]
            fetched_at(config, events.take(i), j, session) && is_ticket_of(session, ticket);
        assert(fetched_at(config, events, j, session));
    }
}

/// A digest is looked up under the keys of the deployment, the address and the port of a session
/// that was fetched and is ready.
pub proof fn law_digest_is_of_the_ready_session(
    config: ResponderConfig,
    events: Seq<ResponderEvent>,
    i: int,
    key: Seq<char>,
)
    requires
        0 <= i < session_laws::run(config, events).actions.len(),
        session_laws::run(config, events).actions[i] == (ResponderAction::GetDigest { key }),
    ensures
        exists|j: int, session: Session, port: u16|
            {
                &&& 0 <= j < i
                &&& #[trigger] fetched_at(config, events, j, session)
                &&& #[trigger] is_served_at(session, session.deployment->0.public_ip@, port)
                &&& nats::lookup_keys(
                    Some(session.deployment->0.request_id@),
                    session.deployment->0.public_ip@,
                    Some(port),
                ).contains(key)
            },
{
    law_one_session_is_asked_for(config, events, i);
    lemma_action(config, events, i);
    lemma_awaited(config, events, i);
    if let Stage::AwaitDigest { seat, index, .. } = awaited(config, events, i) {
        let ticket = seat.ticket;
        let (j, session) = choose|j: int, session: Session| #[trigger]
            fetched_at(config, events.take(i), j, session) && is_ticket_of(session, ticket);
        assert(fetched_at(config, events, j, session));
        assert(is_served_at(session, session.deployment->0.public_ip@, ticket.port));
        assert(session_service::digest_keys(ticket)[index as int] == key);
    }
}

/// A token is asked for to the address that was read, for the client id that was drawn.
pub proof fn law_token_is_for_what_came_in(
    config: ResponderConfig,
    events: Seq<ResponderEvent>,
    i: int,
    address: Seq<char>,
    client: u64,
)
    requires
        0 <= i < session_laws::run(config, events).actions.len(),
        session_laws::run(config, events).actions[i] == (ResponderAction::IssueToken {
            address,
            client,
        }),
    ensures
        exists|j: int| 0 <= j < i && #[trigger] read_at(config, events, j, address),
        exists|j: int| 0 <= j < i && #[trigger] drawn_at(config, events, j, client),
{
    law_one_session_is_asked_for(config, events, i);
    lemma_action(config, events, i);
    lemma_awaited(config, events, i);
    let past = events.take(i);
    let j = choose|j: int| read_at(config, past, j, address);
    assert(read_at(config, events, j, address));
    let k = choose|j: int| drawn_at(config, past, j, client);
    assert(drawn_at(config, events, k, client));
}

/// Both mappings are between a session that was fetched and is ready, under its very id, and the
/// client id that was drawn, which is read back from its notation.
pub proof fn law_mappings_are_of_the_ready_session(
    config: ResponderConfig,
    events: Seq<ResponderEvent>,
    i: int,
    client_id: Seq<char>,
    session_id: Seq<char>,
)
    requires
        0 <= i < session_laws::run(config, events).actions.len(),
        ({
            let done = session_laws::run(config, events).actions[i];
            ||| done == (ResponderAction::StoreClient { client_id, session_id })
            ||| done == (ResponderAction::StoreSession { session_id, client_id })
        }),
    ensures
        exists|j: int, session: Session|
            {
                &&& 0 <= j < i
                &&& #[trigger] fetched_at(config, events, j, session)
                &&& session.ready
                &&& session.session_id@ == session_id
            },
        exists|j: int, client: u64|
            {
                &&& 0 <= j < i
                &&& #[trigger] drawn_at(config, events, j, client)
                &&& text::parsed_unsigned(client_id, u64::MAX as nat) == Some(client as nat)
                &&& client_id == text::decimal(client as nat)
            },
{
    law_one_session_is_asked_for(config, events, i);
    lemma_action(config, events, i);
    lemma_awaited(config, events, i);
    let past = events.take(i);
    if let Some(seat) = session_laws::seat_of(awaited(config, events, i)) {
        let (j, session) = choose|j: int, session: Session| #[trigger]
            fetched_at(config, past, j, session) && is_ticket_of(session, seat.ticket);
        assert(fetched_at(config, events, j, session));
        let k = choose|j: int| drawn_at(config, past, j, seat.client_id);
        assert(drawn_at(config, events, k, seat.client_id));
        text::law_decimal_reads_back(seat.client_id as nat, u64::MAX as nat);
    }
}

/// A client is told the token that was issued, the digest that was found, and the address and port
/// of a session that was fetched and is ready.
pub proof fn law_client_is_told_what_came_in(
    config: ResponderConfig,
    events: Seq<ResponderEvent>,
    i: int,
    response: SessionResponse<Seq<char>>,
)
    requires
        0 <= i < session_laws::run(config, events).actions.len(),
        session_laws::run(config, events).actions[i] == ResponderAction::Finish(Ok(response)),
    ensures
        exists|j: int, session: Session|
            0 <= j < i && #[trigger] fetched_at(config, events, j, session) && is_served_at(
                session,
                response.gameserver_ip,
                response.gameserver_port,
            ),
        exists|j: int| 0 <= j < i && #[trigger] digest_at(config, events, j, response.cert_digest),
        exists|j: int| 0 <= j < i && #[trigger] token_at(config, events, j, response.connect_token),
        i > 0 && (events[i - 1] matches ResponderEvent::SessionStored(Ok(_))),
{
    law_one_session_is_asked_for(config, events, i);
    lemma_action(config, events, i);
    lemma_awaited(config, events, i - 1);
    let past = events.take(i - 1);
    if let Stage::AwaitSessionStored { seat, cert_digest, connect_token } = awaited(
        config,
        events,
        i - 1,
    ) {
        let (j, session) = choose|j: int, session: Session| #[trigger]
            fetched_at(config, past, j, session) && is_ticket_of(session, seat.ticket);
        assert(fetched_at(config, events, j, session));
        assert(response == session_service::answer(seat, cert_digest, connect_token));
        assert(is_digested(config, past, response.cert_digest));
        let k = choose|j: int| digest_at(config, past, j, response.cert_digest);
        assert(digest_at(config, events, k, response.cert_digest));
        assert(is_issued(config, past, response.connect_token));
        let l = choose|j: int| token_at(config, past, j, response.connect_token);
        assert(token_at(config, events, l, response.connect_token));
    }
}

// ---------------------------------------------------------------------------
// Whom it is done for
// ---------------------------------------------------------------------------

/// The request still waits for a session.
spec fn is_searching(state: Stage<Seq<char>>) -> bool {
    state is AwaitPost || state is AwaitPollDelay || state is AwaitFetch
}

proof fn lemma_search_is_over(
    config: ResponderConfig,
    events: Seq<ResponderEvent>,
    j: int,
    session: Session,
    n: int,
)
    requires
        fetched_at(config, events, j, session),
        session.ready,
        j < n <= events.len(),
    ensures
        !is_searching(awaited(config, events, n)),
        awaited(config, events, n) matches Stage::AwaitRecorded { session, .. } ==> session.ready,
        awaited(config, events, n) is AwaitClientId ==> n <= j + 2 || awaited(
            config,
            events,
            n - 1,
        ) is AwaitClientId || awaited(config, events, n - 1) is AwaitRecorded,
    decreases n,
{
    session_laws::law_states_are_valid(config, events);
    lemma_action(config, events, n);
    if n > j + 1 {
        lemma_search_is_over(config, events, j, session, n - 1);
    }
}

/// At most one session that is ready is fetched: all that is done for the client is done with it.
pub proof fn law_one_ready_session(
    config: ResponderConfig,
    events: Seq<ResponderEvent>,
    j: int,
    session: Session,
    k: int,
    other: Session,
)
    requires
        fetched_at(config, events, j, session),
        fetched_at(config, events, k, other),
        session.ready,
        other.ready,
    ensures
        j == k,
        session == other,
{
    if j < k {
        lemma_search_is_over(config, events, j, session, k);
    }
    if k < j {
        lemma_search_is_over(config, events, k, other, j);
    }
}

proof fn lemma_client_is_known(
    config: ResponderConfig,
    events: Seq<ResponderEvent>,
    j: int,
    client: u64,
    n: int,
)
    requires
        drawn_at(config, events, j, client),
        j < n <= events.len(),
    ensures
        !is_searching(awaited(config, events, n)),
        !(awaited(config, events, n) is AwaitRecorded),
        !(awaited(config, events, n) is AwaitClientId),
    decreases n,
{
    session_laws::law_states_are_valid(config, events);
    lemma_action(config, events, n);
    if n > j + 1 {
        lemma_client_is_known(config, events, j, client, n - 1);
    }
}

/// At most one client id is drawn: the token is for it, and so are both mappings.
pub proof fn law_one_client(
    config: ResponderConfig,
    events: Seq<ResponderEvent>,
    j: int,
    client: u64,
    k: int,
    other: u64,
)
    requires
        drawn_at(config, events, j, client),
        drawn_at(config, events, k, other),
    ensures
        j == k,
        client == other,
{
    if j < k {
        lemma_client_is_known(config, events, j, client, k);
    }
    if k < j {
        lemma_client_is_known(config, events, k, other, j);
    }
}

proof fn lemma_unrecorded(config: ResponderConfig, events: Seq<ResponderEvent>, n: int)
    requires
        0 <= n <= events.len(),
    ensures
        ({
            let state = awaited(config, events, n);
            let fresh = match state {
                Stage::AwaitPost => true,
                Stage::AwaitPollDelay { recorded, .. } => !recorded,
                Stage::AwaitFetch { recorded, .. } => !recorded,
                _ => false,
            };
            let any = exists|j: int, session: Session|
                0 <= j < n && #[trigger] fetched_at(config, events, j, session);
            &&& fresh ==> !any
            &&& !fresh && !(state is Finished) ==> any
        }),
    decreases n,
{
    session_laws::law_states_are_valid(config, events);
    if n == 0 {
        reveal(awaited);
        assert(events.take(0).len() == 0);
    } else {
        lemma_action(config, events, n);
        lemma_unrecorded(config, events, n - 1);
        let before = awaited(config, events, n - 1);
        if let ResponderEvent::Fetched(Ok(session)) = events[n - 1] {
            if before is AwaitFetch {
                assert(fetched_at(config, events, n - 1, session));
            }
        }
    }
}

/// The first session that is fetched is recorded as unclaimed, under its own id, before anything
/// else; and no other is.
pub proof fn law_first_session_is_recorded(
    config: ResponderConfig,
    events: Seq<ResponderEvent>,
    j: int,
    session: Session,
)
    requires
        fetched_at(config, events, j, session),
    ensures
        ({
            let first = forall|k: int, other: Session|
                0 <= k < j ==> !#[trigger] fetched_at(config, events, k, other);
            let next = session_laws::run(config, events).actions[j + 1];
            &&& first ==> next == (ResponderAction::RecordUnclaimed {
                session_id: session.session_id@,
            })
            &&& !first ==> !(next is RecordUnclaimed)
        }),
{
    session_laws::law_states_are_valid(config, events);
    lemma_action(config, events, j + 1);
    lemma_unrecorded(config, events, j);
    if let Stage::AwaitFetch { recorded, .. } = awaited(config, events, j) {
        if recorded {
            let (k, other) = choose|k: int, other: Session|
                0 <= k < j && #[trigger] fetched_at(config, events, k, other);
            assert(fetched_at(config, events, k, other));
        }
    }
}

/// Where every session that is fetched has the same id, that is the id that is recorded as unclaimed
/// and that both mappings hold.
pub proof fn law_one_id_throughout(
    config: ResponderConfig,
    events: Seq<ResponderEvent>,
    i: int,
    id: Seq<char>,
)
    requires
        0 <= i < session_laws::run(config, events).actions.len(),
        forall|j: int|
            0 <= j < events.len() ==> (#[trigger] events[j] matches ResponderEvent::Fetched(
                Ok(session),
            ) ==> session.session_id@ == id),
    ensures
        match session_laws::run(config, events).actions[i] {
            ResponderAction::RecordUnclaimed { session_id } => session_id == id,
            ResponderAction::StoreClient { session_id, .. } => session_id == id,
            ResponderAction::StoreSession { session_id, .. } => session_id == id,
            _ => true,
        },
{
    match session_laws::run(config, events).actions[i] {
        ResponderAction::RecordUnclaimed { session_id } => {
            law_fetched_session_is_recorded(config, events, i, session_id);
            let session = choose|session: Session| #[trigger]
                fetched_at(config, events, i - 1, session) && session.session_id@ == session_id;
            assert(events[i - 1] == ResponderEvent::Fetched(Ok(session)));
        },
        ResponderAction::StoreClient { client_id, session_id } => {
            law_mappings_are_of_the_ready_session(config, events, i, client_id, session_id);
        },
        ResponderAction::StoreSession { session_id, client_id } => {
            law_mappings_are_of_the_ready_session(config, events, i, client_id, session_id);
        },
        _ => {},
    }
}

/// The key that a game server looks up for a client when it connects is the one that the matchmaker
/// stored its session under.
pub proof fn law_stored_session_is_looked_up(
    config: ResponderConfig,
    events: Seq<ResponderEvent>,
    i: int,
    client_id: Seq<char>,
    session_id: Seq<char>,
    connections: Map<u64, Seq<char>>,
    namespace: Option<Seq<char>>,
    client: u64,
)
    requires
        0 <= i < session_laws::run(config, events).actions.len(),
        session_laws::run(config, events).actions[i] == (ResponderAction::StoreClient {
            client_id,
            session_id,
        }),
    ensures
        ({
            let asked = plugin::told(connections, namespace, NatsEvent::ClientConnected(client)).1;
            (exists|j: int| #[trigger] drawn_at(config, events, j, client)) <==> asked == (
            plugin::NatsActionView::FindSession { key: client_id })
        }),
{
    law_mappings_are_of_the_ready_session(config, events, i, client_id, session_id);
    let (k, drawn) = choose|k: int, drawn: u64|
        {
            &&& 0 <= k < i
            &&& #[trigger] drawn_at(config, events, k, drawn)
            &&& text::parsed_unsigned(client_id, u64::MAX as nat) == Some(drawn as nat)
            &&& client_id == text::decimal(drawn as nat)
        };
    if exists|j: int| #[trigger] drawn_at(config, events, j, client) {
        let j = choose|j: int| #[trigger] drawn_at(config, events, j, client);
        law_one_client(config, events, j, client, k, drawn);
    } else {
        assert(client != drawn);
        plugin::law_lookup_keys_are_the_clients(connections, namespace, client, drawn);
    }
}

// ---------------------------------------------------------------------------
// What comes of each event
// ---------------------------------------------------------------------------

/// A request that was refused is answered with the refusal. A failure later on ends it with a
/// message that says what was tried, and holds the cause as it was given.
pub proof fn law_failures_are_told(config: ResponderConfig, events: Seq<ResponderEvent>, j: int)
    requires
        0 <= j < events.len(),
    ensures
        ({
            let state = awaited(config, events, j);
            let next = session_laws::run(config, events).actions[j + 1];
            let told = |message: Seq<char>|
                next == ResponderAction::<Seq<char>>::Finish(Err(SessionError::Io(message)));
            match events[j] {
                ResponderEvent::Posted(Err(error)) => state is AwaitPost ==> next
                    == ResponderAction::<Seq<char>>::Finish(Err(error@)),
                ResponderEvent::Fetched(Err(error)) => state is AwaitFetch ==> told(
                    "get session error: "@ + error@,
                ),
                ResponderEvent::Recorded(Err(error)) => state is AwaitRecorded ==> told(
                    "Failed to put session_id in unclaimed_sessions KV: "@ + error@,
                ),
                ResponderEvent::Address(Err(error)) => (state matches Stage::AwaitAddress {
                    ticket,
                    ..
                } ==> told("Failed parsing server ip "@ + ticket.public_ip + ": "@ + error@)),
                ResponderEvent::Token(Err(TokenError::Generate(cause))) => state is AwaitToken
                    ==> told("Failed to generate token: "@ + cause@),
                ResponderEvent::Token(Err(TokenError::Serialize(cause))) => state is AwaitToken
                    ==> told("Failed to serialize token: "@ + cause@),
                ResponderEvent::ClientStored(Err(error)) => state is AwaitClientStored ==> told(
                    "Failed to put token KV entry: "@ + error@,
                ),
                ResponderEvent::SessionStored(Err(error)) => state is AwaitSessionStored ==> told(
                    "Failed to put token KV entry: "@ + error@,
                ),
                _ => true,
            }
        }),
{
    session_laws::law_states_are_valid(config, events);
    lemma_action(config, events, j + 1);
}

/// How a request goes on with each event that it waits for and that brings no failure.
pub proof fn law_requests_go_on(config: ResponderConfig, events: Seq<ResponderEvent>, j: int)
    requires
        0 <= j < events.len(),
    ensures
        ({
            let state = awaited(config, events, j);
            let next = session_laws::run(config, events).actions[j + 1];
            match (state, events[j]) {
                (Stage::AwaitPost, ResponderEvent::Posted(Ok(_))) => next is Sleep,
                (Stage::AwaitPollDelay { .. }, ResponderEvent::Slept) => next is Fetch,
                (Stage::AwaitClientId { .. }, ResponderEvent::ClientId(_)) => next is ReadAddress,
                (Stage::AwaitAddress { .. }, ResponderEvent::Address(Ok(_))) => next is GetDigest,
                (
                    Stage::AwaitDigest { .. },
                    ResponderEvent::Digest(Ok(Some(digest))),
                ) => valid_utf8(digest@) <==> next is IssueToken,
                (Stage::AwaitDigest { .. }, ResponderEvent::Digest(_)) => next is GetDigest || next
                    is ReadClock,
                (Stage::AwaitClock { .. }, ResponderEvent::Elapsed(elapsed)) => elapsed
                    < config.cert_digest_timeout <==> next is SleepDigestInterval,
                (Stage::AwaitDigestDelay { .. }, ResponderEvent::Slept) => next is GetDigest,
                (Stage::AwaitToken { .. }, ResponderEvent::Token(Ok(_))) => next is StoreClient,
                (
                    Stage::AwaitClientStored { .. },
                    ResponderEvent::ClientStored(Ok(_)),
                ) => next is StoreSession,
                (
                    Stage::AwaitSessionStored { .. },
                    ResponderEvent::SessionStored(Ok(_)),
                ) => next matches ResponderAction::Finish(Ok(_)),
                _ => true,
            }
        }),
{
    session_laws::law_states_are_valid(config, events);
    lemma_action(config, events, j + 1);
    if let Stage::AwaitDigestDelay { seat, .. } = awaited(config, events, j) {
        nats::law_lookup_keys_in_order(
            Some(seat.ticket.request_id),
            seat.ticket.public_ip,
            Some(seat.ticket.port),
        );
    }
    if let Stage::AwaitAddress { ticket, .. } = awaited(config, events, j) {
        nats::law_lookup_keys_in_order(
            Some(ticket.request_id),
            ticket.public_ip,
            Some(ticket.port),
        );
    }
}

/// `session` was fetched and has been recorded by now, at `j`.
pub open spec fn is_polled_at(
    config: ResponderConfig,
    events: Seq<ResponderEvent>,
    j: int,
    session: Session,
) -> bool {
    &&& 0 <= j < events.len()
    &&& {
        ||| {
            &&& (awaited(config, events, j) matches Stage::AwaitFetch { recorded, .. } && recorded)
            &&& events[j] == ResponderEvent::Fetched(Ok(session))
        }
        ||| {
            &&& (awaited(config, events, j) matches Stage::AwaitRecorded { session: kept, .. }
                && kept == session)
            &&& (events[j] matches ResponderEvent::Recorded(Ok(_)))
        }
    }
}

/// A session that is ready is gone on with wherever its deployment maps its first port to a port
/// number; else the request ends with what is wrong.
pub proof fn law_ready_session_is_gone_on_with(
    config: ResponderConfig,
    events: Seq<ResponderEvent>,
    j: int,
    session: Session,
)
    requires
        is_polled_at(config, events, j, session),
        session.ready,
    ensures
        ({
            let next = session_laws::run(config, events).actions[j + 1];
            let told = |message: Seq<char>|
                next == ResponderAction::<Seq<char>>::Finish(Err(SessionError::Io(message)));
            match session.deployment {
                None => told("deployment not found"@),
                Some(deployment) => match deployment.ports {
                    None => told("No ports found in deployment!"@),
                    Some(ports) => {
                        &&& ports@.len() == 0 ==> told("No external port found in deployment"@)
                        &&& ports@.len() > 0 && ports@[0] is None ==> told(
                            "No external port found in deployment"@,
                        )
                        &&& ports@.len() > 0 && ports@[0] is Some ==> {
                            &&& 0 <= ports@[0]->0 <= 65535 <==> next is DrawClientId
                            &&& !(0 <= ports@[0]->0 <= 65535) ==> told("Invalid external port"@)
                        }
                    },
                },
            }
        }),
{
    session_laws::law_states_are_valid(config, events);
    lemma_action(config, events, j + 1);
}

/// A session that is not ready is polled again 200 milliseconds later, until it was fetched more
/// than 50 times.
pub proof fn law_session_is_polled_again(
    config: ResponderConfig,
    events: Seq<ResponderEvent>,
    j: int,
    session: Session,
)
    requires
        is_polled_at(config, events, j, session),
        !session.ready,
    ensures
        ({
            let next = session_laws::run(config, events).actions[j + 1];
            let fetched = session_laws::fetches(session_laws::run(config, events.take(j)).actions);
            &&& fetched <= 50 ==> next == ResponderAction::<Seq<char>>::Sleep(200)
            &&& fetched > 50 ==> next == ResponderAction::<Seq<char>>::Finish(
                Err(SessionError::Io("session not ready timeout on tries"@)),
            )
        }),
{
    session_laws::law_states_are_valid(config, events);
    lemma_action(config, events, j + 1);
    session_laws::law_polls_are_bounded(config, events.take(j));
    reveal(awaited);
}

/// An event that is not waited for changes nothing, and nothing is done about it.
pub proof fn law_other_events_are_passed_over(
    config: ResponderConfig,
    events: Seq<ResponderEvent>,
    j: int,
)
    requires
        0 <= j < events.len(),
        !(match awaited(config, events, j) {
            Stage::AwaitPost => events[j] is Posted,
            Stage::AwaitPollDelay { .. } => events[j] is Slept,
            Stage::AwaitFetch { .. } => events[j] is Fetched,
            Stage::AwaitRecorded { .. } => events[j] is Recorded,
            Stage::AwaitClientId { .. } => events[j] is ClientId,
            Stage::AwaitAddress { .. } => events[j] is Address,
            Stage::AwaitDigest { .. } => events[j] is Digest,
            Stage::AwaitClock { .. } => events[j] is Elapsed,
            Stage::AwaitDigestDelay { .. } => events[j] is Slept,
            Stage::AwaitToken { .. } => events[j] is Token,
            Stage::AwaitClientStored { .. } => events[j] is ClientStored,
            Stage::AwaitSessionStored { .. } => events[j] is SessionStored,
            Stage::Finished => false,
        }),
    ensures
        session_laws::run(config, events).actions[j + 1] is Wait,
        awaited(config, events, j + 1) == awaited(config, events, j),
{
    session_laws::law_states_are_valid(config, events);
    lemma_action(config, events, j + 1);
}

/// Where no digest was found in time, the request ends with a message that lists the keys with commas
/// between them, the number of rounds, the time, and the last error where there was one. A digest
/// that is not text ends it too.
pub proof fn law_search_failures_are_told(
    config: ResponderConfig,
    events: Seq<ResponderEvent>,
    j: int,
)
    requires
        0 <= j < events.len(),
    ensures
        ({
            let next = session_laws::run(config, events).actions[j + 1];
            let told = |message: Seq<char>|
                next == ResponderAction::<Seq<char>>::Finish(Err(SessionError::Io(message)));
            match (awaited(config, events, j), events[j]) {
                (
                    Stage::AwaitClock { seat, attempts, last_error },
                    ResponderEvent::Elapsed(elapsed),
                ) => elapsed >= config.cert_digest_timeout ==> {
                    let start = "Failed to get cert digest from KV for keys: "@ + text::joined(
                        nats::lookup_keys(
                            Some(seat.ticket.request_id),
                            seat.ticket.public_ip,
                            Some(seat.ticket.port),
                        ),
                        ","@,
                    ) + " after "@ + text::decimal(attempts as nat) + " attempts over "@
                        + text::duration_text(elapsed);
                    &&& last_error is None ==> told(start)
                    &&& last_error is Some ==> told(start + "; last NATS error="@ + last_error->0)
                },
                (
                    Stage::AwaitDigest { seat, index, .. },
                    ResponderEvent::Digest(Ok(Some(digest))),
                ) => !valid_utf8(digest@) ==> told(
                    "Cert digest for key "@ + nats::lookup_keys(
                        Some(seat.ticket.request_id),
                        seat.ticket.public_ip,
                        Some(seat.ticket.port),
                    )[index as int] + " is not utf8: "@ + text::utf8_error(digest@),
                ),
                _ => true,
            }
        }),
{
    session_laws::law_states_are_valid(config, events);
    lemma_action(config, events, j + 1);
    if let Stage::AwaitClock { seat, attempts, last_error } = awaited(config, events, j) {
        if let ResponderEvent::Elapsed(elapsed) = events[j] {
            let start = "Failed to get cert digest from KV for keys: "@ + text::joined(
                session_service::digest_keys(seat.ticket),
                ","@,
            ) + " after "@ + text::decimal(attempts as nat) + " attempts over "@
                + text::duration_text(elapsed);
            if let Some(error) = last_error {
                assert(start + ("; last NATS error="@ + error) == start + "; last NATS error="@
                    + error);
            } else {
                assert(start + Seq::<char>::empty() == start);
            }
        }
    }
}

/// A request can always go on, but for one: a round of looking for the digest that can no longer be
/// counted.
pub proof fn law_requests_can_go_on(state: Stage<Seq<char>>)
    ensures
        session_service::can_go_on(state) <==> !(state matches Stage::AwaitDigestDelay {
            attempts,
            ..
        } && attempts == u32::MAX),
{
}

/// A token that is issued for an action is the base64 text of bytes that grant the very connection
/// that was asked for: to the address and for the client of the action, under the protocol id and the
/// key that are configured. For the actions that take an outside service, nothing is done.
pub proof fn law_issued_token_is_as_asked_for(
    config: ResponderConfig,
    action: ResponderAction<Seq<char>>,
    outcome: Option<ResponderEvent>,
)
    requires
        session_service::is_outcome(config, action, outcome),
    ensures
        action is DrawClientId <==> (outcome matches Some(ResponderEvent::ClientId(_))),
        action is IssueToken <==> (outcome matches Some(ResponderEvent::Token(_))),
        !(action is DrawClientId) && !(action is IssueToken) <==> outcome is None,
        action is IssueToken ==> (outcome->0->Token_0 matches Ok(connect_token) ==> exists|
            bytes: Seq<u8>,
        |
            {
                &&& connect_token@ == token::base64_text(bytes)
                &&& #[trigger] token::grants_connection(
                    bytes,
                    action->address,
                    config.protocol_id,
                    action->client,
                    config.private_key@,
                )
            }),
{
    if let ResponderAction::IssueToken { address, client } = action {
        if let Some(ResponderEvent::Token(Ok(connect_token))) = outcome {
            token::law_connect_token_grants_the_connection(
                connect_token@,
                address,
                config.protocol_id,
                client,
                config.private_key@,
            );
        }
    }
}

} // verus!
