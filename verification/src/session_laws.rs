//! What holds of every session request, from its beginning on.
use crate::session_request;
use crate::session_service;
use crate::session_service::PostRejection;
use crate::session_service::ResponderAction;
use crate::session_service::ResponderConfig;
use crate::session_service::ResponderEvent;
use crate::session_service::Seat;
use crate::session_service::Session;
use crate::session_service::SessionError;
use crate::session_service::SessionResponse;
use crate::session_service::Stage;
use crate::session_service::Ticket;
use crate::text;
use crate::token;
use vstd::prelude::*;
use vstd::utf8::*;

verus! {

/// A request that has come this far: its state, and what was done for it so far.
pub struct Run {
    pub state: Stage<Seq<char>>,
    pub actions: Seq<ResponderAction<Seq<char>>>,
}

/// The request, once `events` have come in.
pub open spec fn run(config: ResponderConfig, events: Seq<ResponderEvent>) -> Run
    decreases events.len(),
{
    if events.len() == 0 {
        let step = session_service::begun(config);
        Run { state: step.0, actions: seq![step.1] }
    } else {
        let before = run(config, events.drop_last());
        let step = session_service::advanced(config, before.state, events.last());
        Run { state: step.0, actions: before.actions.push(step.1) }
    }
}

/// How often the session was fetched.
pub open spec fn fetches(actions: Seq<ResponderAction<Seq<char>>>) -> nat
    decreases actions.len(),
{
    if actions.len() == 0 {
        0
    } else {
        fetches(actions.drop_last()) + if actions.last() is Fetch {
            1nat
        } else {
            0
        }
    }
}

/// Something that `what` holds of came in.
pub open spec fn heard(
    events: Seq<ResponderEvent>,
    what: spec_fn(ResponderEvent) -> bool,
) -> bool {
    exists|i: int| 0 <= i < events.len() && what(#[trigger] events[i])
}

/// A session came in that is ready, on the server that `ticket` tells.
pub open spec fn heard_ready(events: Seq<ResponderEvent>, ticket: Ticket<Seq<char>>) -> bool {
    heard(
        events,
        |event: ResponderEvent|
            event matches ResponderEvent::Fetched(Ok(session)) && session.ready
                && session_service::located(session).0 == (Stage::AwaitClientId { ticket }),
    )
}

/// `session` came in, and its id was to be recorded as unclaimed.
pub open spec fn noted(
    events: Seq<ResponderEvent>,
    actions: Seq<ResponderAction<Seq<char>>>,
    session: Session,
) -> bool {
    &&& actions.contains(ResponderAction::RecordUnclaimed { session_id: session.session_id@ })
    &&& heard(events, |event: ResponderEvent| event == ResponderEvent::Fetched(Ok(session)))
}

/// A session came in and its id was recorded as unclaimed, and the recording went well.
pub open spec fn recorded(
    events: Seq<ResponderEvent>,
    actions: Seq<ResponderAction<Seq<char>>>,
) -> bool {
    &&& exists|session: Session| noted(events, actions, session)
    &&& heard(events, |event: ResponderEvent| event matches ResponderEvent::Recorded(Ok(_)))
}

/// The client id was drawn.
pub open spec fn heard_client_id(events: Seq<ResponderEvent>, client_id: u64) -> bool {
    heard(events, |event: ResponderEvent| event == ResponderEvent::ClientId(client_id))
}

/// The socket address came in.
pub open spec fn heard_address(events: Seq<ResponderEvent>, address: Seq<char>) -> bool {
    heard(
        events,
        |event: ResponderEvent|
            event matches ResponderEvent::Address(Ok(found)) && found@ == address,
    )
}

/// The digest came in.
pub open spec fn heard_digest(events: Seq<ResponderEvent>, cert_digest: Seq<char>) -> bool {
    heard(
        events,
        |event: ResponderEvent|
            event matches ResponderEvent::Digest(Ok(Some(found))) && valid_utf8(found@)
                && decode_utf8(found@) == cert_digest,
    )
}

/// The token came in.
pub open spec fn heard_token(events: Seq<ResponderEvent>, connect_token: Seq<char>) -> bool {
    heard(
        events,
        |event: ResponderEvent|
            event matches ResponderEvent::Token(Ok(found)) && found@ == connect_token,
    )
}

proof fn lemma_heard_more(
    events: Seq<ResponderEvent>,
    event: ResponderEvent,
    what: spec_fn(ResponderEvent) -> bool,
)
    ensures
        heard(events, what) ==> heard(events.push(event), what),
        what(event) ==> heard(events.push(event), what),
{
    if heard(events, what) {
        let i = choose|i: int| 0 <= i < events.len() && what(#[trigger] events[i]);
        assert(events.push(event)[i] == events[i]);
    }
    if what(event) {
        assert(events.push(event)[events.len() as int] == event);
    }
}

/// Every state that a request comes through is valid.
pub proof fn law_states_are_valid(config: ResponderConfig, events: Seq<ResponderEvent>)
    ensures
        session_service::is_valid(run(config, events).state),
        run(config, events).actions.len() == events.len() + 1,
    decreases events.len(),
{
    if events.len() > 0 {
        law_states_are_valid(config, events.drop_last());
    }
}

/// A session is fetched at most one time more than `MAX_POLLS`, whatever comes in.
pub proof fn law_polls_are_bounded(config: ResponderConfig, events: Seq<ResponderEvent>)
    ensures
        fetches(run(config, events).actions) <= session_service::MAX_POLLS + 1,
        run(config, events).state matches Stage::AwaitPollDelay { tries, .. } ==> fetches(
            run(config, events).actions,
        ) == tries,
        run(config, events).state matches Stage::AwaitFetch { tries, .. } ==> fetches(
            run(config, events).actions,
        ) == tries,
        run(config, events).state matches Stage::AwaitRecorded { tries, .. } ==> fetches(
            run(config, events).actions,
        ) == tries,
        run(config, events).state is AwaitPost ==> fetches(run(config, events).actions) == 0,
    decreases events.len(),
{
    law_states_are_valid(config, events);
    reveal_with_fuel(fetches, 2);
    if events.len() > 0 {
        law_states_are_valid(config, events.drop_last());
        law_polls_are_bounded(config, events.drop_last());
        let before = run(config, events.drop_last());
        let after = run(config, events);
        assert(after.actions.drop_last() == before.actions);
    }
}

/// A request is answered at most once, and nothing is done for it afterwards.
pub proof fn law_answered_once(config: ResponderConfig, events: Seq<ResponderEvent>, i: int, j: int)
    requires
        0 <= i < j < run(config, events).actions.len(),
        run(config, events).actions[i] is Finish,
    ensures
        run(config, events).actions[j] is Wait,
        run(config, events).state is Finished,
    decreases events.len(),
{
    law_states_are_valid(config, events);
    law_states_are_valid(config, events.drop_last());
    let before = run(config, events.drop_last());
    if j < before.actions.len() {
        law_answered_once(config, events.drop_last(), i, j);
    } else if i < before.actions.len() - 1 {
        law_answered_once(config, events.drop_last(), i, before.actions.len() - 1);
    } else {
        lemma_finish_is_final(config, events.drop_last());
    }
}

proof fn lemma_finish_is_final(config: ResponderConfig, events: Seq<ResponderEvent>)
    ensures
        run(config, events).actions.last() is Finish ==> run(config, events).state is Finished,
{
    if events.len() > 0 {
        let before = run(config, events.drop_last());
    }
}

/// What has come in and has been done by the time that a request is in `state`.
pub open spec fn founded(
    events: Seq<ResponderEvent>,
    actions: Seq<ResponderAction<Seq<char>>>,
    state: Stage<Seq<char>>,
) -> bool {
    match state {
        Stage::AwaitPollDelay { recorded: done, .. } => done ==> recorded(events, actions),
        Stage::AwaitFetch { recorded: done, .. } => done ==> recorded(events, actions),
        Stage::AwaitRecorded { session, .. } => noted(events, actions, session),
        Stage::AwaitClientId { ticket } => {
            &&& recorded(events, actions)
            &&& heard_ready(events, ticket)
        },
        Stage::AwaitAddress { ticket, client_id } => {
            &&& recorded(events, actions)
            &&& heard_ready(events, ticket)
            &&& heard_client_id(events, client_id)
            &&& actions.contains(address_request(ticket))
        },
        Stage::AwaitDigest { seat, .. } => seated(events, actions, seat),
        Stage::AwaitClock { seat, .. } => seated(events, actions, seat),
        Stage::AwaitDigestDelay { seat, .. } => seated(events, actions, seat),
        Stage::AwaitToken { seat, cert_digest } => {
            &&& seated(events, actions, seat)
            &&& heard_digest(events, cert_digest)
            &&& actions.contains(token_request(seat))
        },
        Stage::AwaitClientStored { seat, cert_digest, connect_token } => {
            &&& seated(events, actions, seat)
            &&& heard_digest(events, cert_digest)
            &&& actions.contains(token_request(seat))
            &&& heard_token(events, connect_token)
            &&& actions.contains(client_entry(seat))
        },
        Stage::AwaitSessionStored { seat, cert_digest, connect_token } => {
            &&& seated(events, actions, seat)
            &&& heard_digest(events, cert_digest)
            &&& actions.contains(token_request(seat))
            &&& heard_token(events, connect_token)
            &&& actions.contains(client_entry(seat))
            &&& heard(
                events,
                |event: ResponderEvent| event matches ResponderEvent::ClientStored(Ok(_)),
            )
            &&& actions.contains(session_entry(seat))
        },
        _ => true,
    }
}

/// The session was recorded and is ready, the client id is known, and so is the address, which was
/// read for the server of the session.
pub open spec fn seated(
    events: Seq<ResponderEvent>,
    actions: Seq<ResponderAction<Seq<char>>>,
    seat: Seat<Seq<char>>,
) -> bool {
    &&& recorded(events, actions)
    &&& heard_ready(events, seat.ticket)
    &&& heard_client_id(events, seat.client_id)
    &&& actions.contains(address_request(seat.ticket))
    &&& heard_address(events, seat.address)
}

/// Reading the address of a server.
pub open spec fn address_request(ticket: Ticket<Seq<char>>) -> ResponderAction<Seq<char>> {
    ResponderAction::ReadAddress { public_ip: ticket.public_ip, port: ticket.port }
}

/// Asking for the token of a seat.
pub open spec fn token_request(seat: Seat<Seq<char>>) -> ResponderAction<Seq<char>> {
    ResponderAction::IssueToken { address: seat.address, client: seat.client_id }
}

/// Mapping the client id of a seat to its session id.
pub open spec fn client_entry(seat: Seat<Seq<char>>) -> ResponderAction<Seq<char>> {
    ResponderAction::StoreClient {
        client_id: text::decimal(seat.client_id as nat),
        session_id: seat.ticket.session_id,
    }
}

/// Mapping the session id of a seat to its client id.
pub open spec fn session_entry(seat: Seat<Seq<char>>) -> ResponderAction<Seq<char>> {
    ResponderAction::StoreSession {
        session_id: seat.ticket.session_id,
        client_id: text::decimal(seat.client_id as nat),
    }
}

/// Everything that has to be in place before a client is told to connect.
pub open spec fn earned(
    events: Seq<ResponderEvent>,
    actions: Seq<ResponderAction<Seq<char>>>,
    seat: Seat<Seq<char>>,
    response: SessionResponse<Seq<char>>,
) -> bool {
    &&& seated(events, actions, seat)
    &&& heard_digest(events, response.cert_digest)
    &&& actions.contains(token_request(seat))
    &&& heard_token(events, response.connect_token)
    &&& actions.contains(client_entry(seat))
    &&& heard(events, |event: ResponderEvent| event matches ResponderEvent::ClientStored(Ok(_)))
    &&& actions.contains(session_entry(seat))
    &&& heard(events, |event: ResponderEvent| event matches ResponderEvent::SessionStored(Ok(_)))
    &&& response.gameserver_ip == seat.ticket.public_ip
    &&& response.gameserver_port == seat.ticket.port
}

proof fn lemma_recorded_more(
    events: Seq<ResponderEvent>,
    event: ResponderEvent,
    actions: Seq<ResponderAction<Seq<char>>>,
    action: ResponderAction<Seq<char>>,
)
    ensures
        recorded(events, actions) ==> recorded(events.push(event), actions.push(action)),
        forall|done: ResponderAction<Seq<char>>|
            actions.contains(done) ==> #[trigger] actions.push(action).contains(done),
        actions.push(action).contains(action),
        forall|session: Session|
            #[trigger] noted(events, actions, session) ==> noted(
                events.push(event),
                actions.push(action),
                session,
            ),
        forall|session: Session|
            #[trigger] noted(events, actions, session) && (event matches ResponderEvent::Recorded(
                Ok(_),
            )) ==> recorded(events.push(event), actions.push(action)),
{
    let ok = |event: ResponderEvent| event matches ResponderEvent::Recorded(Ok(_));
    lemma_heard_all_more(events, event);
    assert(ok(event) ==> heard(events.push(event), ok));
    assert forall|done: ResponderAction<Seq<char>>| actions.contains(done) implies #[trigger] actions.push(
        action,
    ).contains(done) by {
        let i = choose|i: int| 0 <= i < actions.len() && actions[i] == done;
        assert(actions.push(action)[i] == done);
    }
    assert(actions.push(action)[actions.len() as int] == action);
    assert forall|session: Session| #[trigger] noted(events, actions, session) implies noted(
        events.push(event),
        actions.push(action),
        session,
    ) by {
        let id = ResponderAction::RecordUnclaimed { session_id: session.session_id@ };
        assert(actions.push(action).contains(id));
    }
    if recorded(events, actions) {
        let session = choose|session: Session| noted(events, actions, session);
        assert(noted(events.push(event), actions.push(action), session));
    }
}

proof fn lemma_heard_all_more(events: Seq<ResponderEvent>, event: ResponderEvent)
    ensures
        forall|what: spec_fn(ResponderEvent) -> bool| #[trigger]
            heard(events, what) ==> heard(events.push(event), what),
        forall|what: spec_fn(ResponderEvent) -> bool|
            what(event) ==> #[trigger] heard(events.push(event), what),
{
    assert forall|what: spec_fn(ResponderEvent) -> bool| #[trigger]
        heard(events, what) implies heard(events.push(event), what) by {
        lemma_heard_more(events, event, what);
    }
    assert forall|what: spec_fn(ResponderEvent) -> bool|
        what(event) implies #[trigger] heard(events.push(event), what) by {
        lemma_heard_more(events, event, what);
    }
}

/// Whatever state a request is in, what that state rests on has come in and has been done.
pub proof fn law_states_are_founded(config: ResponderConfig, events: Seq<ResponderEvent>)
    ensures
        founded(events, run(config, events).actions, run(config, events).state),
    decreases events.len(),
{
    law_states_are_valid(config, events);
    if events.len() > 0 {
        let earlier = events.drop_last();
        let event = events.last();
        law_states_are_valid(config, earlier);
        law_states_are_founded(config, earlier);
        let before = run(config, earlier);
        let step = session_service::advanced(config, before.state, event);
        assert(events == earlier.push(event));
        lemma_heard_all_more(earlier, event);
        lemma_recorded_more(earlier, event, before.actions, step.1);
        lemma_step_is_founded(config, earlier, event, before);
    }
}

proof fn lemma_ready_at(events: Seq<ResponderEvent>, i: int, session: Session)
    requires
        0 <= i < events.len(),
        events[i] == ResponderEvent::Fetched(Ok(session)),
        session.ready,
    ensures
        session_service::located(session).0 matches Stage::AwaitClientId { ticket }
            ==> heard_ready(events, ticket),
{
    if let Stage::AwaitClientId { ticket } = session_service::located(session).0 {
        let what = |event: ResponderEvent|
            event matches ResponderEvent::Fetched(Ok(session)) && session.ready
                && session_service::located(session).0 == (Stage::AwaitClientId { ticket });
        assert(what(events[i]));
    }
}

proof fn lemma_step_is_founded(
    config: ResponderConfig,
    events: Seq<ResponderEvent>,
    event: ResponderEvent,
    before: Run,
)
    requires
        session_service::is_valid(before.state),
        founded(events, before.actions, before.state),
    ensures
        ({
            let step = session_service::advanced(config, before.state, event);
            founded(events.push(event), before.actions.push(step.1), step.0)
        }),
{
    let step = session_service::advanced(config, before.state, event);
    lemma_heard_all_more(events, event);
    lemma_recorded_more(events, event, before.actions, step.1);
    match before.state {
        Stage::AwaitFetch { recorded: done, .. } => {
            if let ResponderEvent::Fetched(Ok(session)) = event {
                if done && session.ready {
                    lemma_ready_at(events.push(event), events.len() as int, session);
                }
            }
        },
        Stage::AwaitRecorded { session, .. } => {
            let same = |event: ResponderEvent| event == ResponderEvent::Fetched(Ok(session));
            assert(heard(events, same));
            let i = choose|i: int| 0 <= i < events.len() && same(#[trigger] events[i]);
            assert(events.push(event)[i] == events[i]);
            if session.ready {
                lemma_ready_at(events.push(event), i, session);
            }
            assert(noted(events, before.actions, session));
        },
        _ => {},
    }
}

pub proof fn lemma_prefix(config: ResponderConfig, events: Seq<ResponderEvent>, i: int)
    requires
        0 <= i <= events.len(),
    ensures
        run(config, events).actions.take(i + 1) == run(config, events.take(i)).actions,
    decreases events.len(),
{
    law_states_are_valid(config, events);
    law_states_are_valid(config, events.take(i));
    if i == events.len() {
        assert(events.take(i) == events);
    } else {
        lemma_prefix(config, events.drop_last(), i);
        assert(events.drop_last().take(i) == events.take(i));
        law_states_are_valid(config, events.drop_last());
    }
}

/// An action that is only taken for a session that is ready.
pub open spec fn needs_session(action: ResponderAction<Seq<char>>) -> bool {
    ||| action is DrawClientId
    ||| action is ReadAddress
    ||| action is GetDigest
    ||| action is ReadClock
    ||| action is SleepDigestInterval
    ||| action is IssueToken
    ||| action is StoreClient
    ||| action is StoreSession
    ||| action matches ResponderAction::Finish(Ok(_))
}

/// No session leaks: before anything is done for the client with a session, the session has been
/// recorded as unclaimed, so that it is deleted where it goes unused.
pub proof fn law_recorded_before_use(config: ResponderConfig, events: Seq<ResponderEvent>, i: int)
    requires
        0 <= i < run(config, events).actions.len(),
        needs_session(run(config, events).actions[i]),
    ensures
        recorded(events.take(i), run(config, events).actions.take(i)),
{
    law_states_are_valid(config, events);
    lemma_prefix(config, events, i);
    let past = events.take(i);
    let here = run(config, past);
    law_states_are_valid(config, past);
    assert(here.actions.last() == run(config, events).actions[i]);
    assert(i > 0);
    let before = run(config, past.drop_last());
    law_states_are_founded(config, past);
    law_states_are_founded(config, past.drop_last());
    lemma_recorded_more(past.drop_last(), past.last(), before.actions, here.actions.last());
    assert(past.drop_last().push(past.last()) == past);
    assert(before.actions == run(config, events).actions.take(i));
    assert(here.actions == before.actions.push(here.actions.last()));
    let event = past.last();
    let earlier = past.drop_last();
    lemma_heard_all_more(earlier, event);
    match before.state {
        Stage::AwaitRecorded { session, .. } => {
            assert(noted(earlier, before.actions, session));
            assert(noted(past, before.actions, session));
            let ok = |event: ResponderEvent| event matches ResponderEvent::Recorded(Ok(_));
            assert(ok(event));
        },
        _ => {
            let session = choose|session: Session| noted(earlier, before.actions, session);
            assert(noted(past, before.actions, session));
        },
    }
}

/// A client is told to connect only when its session is ready and recorded, the digest was found,
/// a token was issued for the client id that was drawn, and both mappings were stored; and it is
/// told the server of that session.
pub proof fn law_success_is_earned(
    config: ResponderConfig,
    events: Seq<ResponderEvent>,
    response: SessionResponse<Seq<char>>,
)
    requires
        run(config, events).actions.contains(ResponderAction::Finish(Ok(response))),
    ensures
        exists|seat: Seat<Seq<char>>|
            earned(events, run(config, events).actions, seat, response),
    decreases events.len(),
{
    let told = ResponderAction::Finish(Ok(response));
    let here = run(config, events);
    law_states_are_valid(config, events);
    let k = choose|k: int| 0 <= k < here.actions.len() && here.actions[k] == told;
    assert(events.len() > 0);
    let earlier = events.drop_last();
    let event = events.last();
    let before = run(config, earlier);
    law_states_are_valid(config, earlier);
    assert(events == earlier.push(event));
    lemma_heard_all_more(earlier, event);
    lemma_recorded_more(earlier, event, before.actions, here.actions.last());
    if k < before.actions.len() {
        assert(before.actions[k] == told);
        law_success_is_earned(config, earlier, response);
        let seat = choose|seat: Seat<Seq<char>>| earned(earlier, before.actions, seat, response);
        assert(earned(events, here.actions, seat, response));
    } else {
        law_states_are_founded(config, earlier);
        if let Stage::AwaitSessionStored { seat, cert_digest, connect_token } = before.state {
            let stored = |event: ResponderEvent| event matches ResponderEvent::SessionStored(Ok(_));
            assert(stored(event));
            assert(earned(events, here.actions, seat, response));
        }
    }
}

/// Every token that came in while a token was awaited grants the connection that it was asked for.
pub open spec fn tokens_are_genuine(config: ResponderConfig, events: Seq<ResponderEvent>) -> bool {
    forall|i: int|
        0 <= i < events.len() ==> (#[trigger] run(config, events.take(i)).state matches
            Stage::AwaitToken { seat, .. } ==> (events[i] matches ResponderEvent::Token(
            Ok(found),
        ) ==> token::is_connect_token(
            found@,
            seat.address,
            config.protocol_id,
            seat.client_id,
            config.private_key@,
        )))
}

proof fn lemma_tokens_are_genuine(config: ResponderConfig, events: Seq<ResponderEvent>)
    requires
        tokens_are_genuine(config, events),
    ensures
        run(config, events).state matches Stage::AwaitClientStored { seat, connect_token, .. }
            ==> token::is_connect_token(
            connect_token,
            seat.address,
            config.protocol_id,
            seat.client_id,
            config.private_key@,
        ),
        run(config, events).state matches Stage::AwaitSessionStored { seat, connect_token, .. }
            ==> token::is_connect_token(
            connect_token,
            seat.address,
            config.protocol_id,
            seat.client_id,
            config.private_key@,
        ),
    decreases events.len(),
{
    if events.len() > 0 {
        let earlier = events.drop_last();
        assert(earlier == events.take(events.len() - 1));
        lemma_genuine_prefix(config, events);
        lemma_tokens_are_genuine(config, earlier);
        let before = run(config, earlier);
        assert(run(config, events.take(events.len() - 1)).state == before.state);
    }
}

proof fn lemma_genuine_prefix(config: ResponderConfig, events: Seq<ResponderEvent>)
    requires
        tokens_are_genuine(config, events),
        events.len() > 0,
    ensures
        tokens_are_genuine(config, events.drop_last()),
{
    let earlier = events.drop_last();
    assert forall|i: int| 0 <= i < earlier.len() implies (#[trigger] run(
        config,
        earlier.take(i),
    ).state matches Stage::AwaitToken { seat, .. } ==> (earlier[i] matches ResponderEvent::Token(
        Ok(found),
    ) ==> token::is_connect_token(
        found@,
        seat.address,
        config.protocol_id,
        seat.client_id,
        config.private_key@,
    ))) by {
        assert(earlier.take(i) == events.take(i));
        let same = run(config, events.take(i)).state;
    }
}

/// Where the tokens that came in were genuine, the token that a client is given grants the
/// connection to the server of its session, to the client id that both mappings were stored for.
pub proof fn law_given_token_is_genuine(
    config: ResponderConfig,
    events: Seq<ResponderEvent>,
    response: SessionResponse<Seq<char>>,
)
    requires
        tokens_are_genuine(config, events),
        run(config, events).actions.contains(ResponderAction::Finish(Ok(response))),
    ensures
        exists|seat: Seat<Seq<char>>|
            #[trigger] earned(events, run(config, events).actions, seat, response)
                && token::is_connect_token(
                response.connect_token,
                seat.address,
                config.protocol_id,
                seat.client_id,
                config.private_key@,
            ),
    decreases events.len(),
{
    let told = ResponderAction::Finish(Ok(response));
    let here = run(config, events);
    law_states_are_valid(config, events);
    let k = choose|k: int| 0 <= k < here.actions.len() && here.actions[k] == told;
    assert(events.len() > 0);
    let earlier = events.drop_last();
    let event = events.last();
    let before = run(config, earlier);
    law_states_are_valid(config, earlier);
    lemma_genuine_prefix(config, events);
    assert(events == earlier.push(event));
    lemma_heard_all_more(earlier, event);
    lemma_recorded_more(earlier, event, before.actions, here.actions.last());
    if k < before.actions.len() {
        assert(before.actions[k] == told);
        law_given_token_is_genuine(config, earlier, response);
        let seat = choose|seat: Seat<Seq<char>>|
            #[trigger] earned(earlier, before.actions, seat, response)
                && token::is_connect_token(
                response.connect_token,
                seat.address,
                config.protocol_id,
                seat.client_id,
                config.private_key@,
            );
        assert(earned(events, here.actions, seat, response));
    } else {
        law_states_are_founded(config, earlier);
        lemma_tokens_are_genuine(config, earlier);
        if let Stage::AwaitSessionStored { seat, cert_digest, connect_token } = before.state {
            let stored = |event: ResponderEvent| event matches ResponderEvent::SessionStored(Ok(_));
            assert(stored(event));
            assert(earned(events, here.actions, seat, response));
        }
    }
}

/// Every address that came in while one was awaited is that of the server whose address was read,
/// where `address_of` says what the address of a server is.
pub open spec fn addresses_are_genuine(
    config: ResponderConfig,
    events: Seq<ResponderEvent>,
    address_of: spec_fn(Seq<char>, u16) -> Seq<char>,
) -> bool {
    forall|i: int|
        0 <= i < events.len() ==> (#[trigger] run(config, events.take(i)).state matches
            Stage::AwaitAddress { ticket, .. } ==> (events[i] matches ResponderEvent::Address(
            Ok(found),
        ) ==> found@ == address_of(ticket.public_ip, ticket.port)))
}

/// The seat of a request, once it has one.
pub open spec fn seat_of(state: Stage<Seq<char>>) -> Option<Seat<Seq<char>>> {
    match state {
        Stage::AwaitDigest { seat, .. } => Some(seat),
        Stage::AwaitClock { seat, .. } => Some(seat),
        Stage::AwaitDigestDelay { seat, .. } => Some(seat),
        Stage::AwaitToken { seat, .. } => Some(seat),
        Stage::AwaitClientStored { seat, .. } => Some(seat),
        Stage::AwaitSessionStored { seat, .. } => Some(seat),
        _ => None,
    }
}

proof fn lemma_seats_are_addressed(
    config: ResponderConfig,
    events: Seq<ResponderEvent>,
    address_of: spec_fn(Seq<char>, u16) -> Seq<char>,
)
    requires
        addresses_are_genuine(config, events, address_of),
    ensures
        seat_of(run(config, events).state) matches Some(seat) ==> seat.address == address_of(
            seat.ticket.public_ip,
            seat.ticket.port,
        ),
    decreases events.len(),
{
    if events.len() > 0 {
        let earlier = events.drop_last();
        assert(earlier == events.take(events.len() - 1));
        lemma_addressed_prefix(config, events, address_of);
        lemma_seats_are_addressed(config, earlier, address_of);
        assert(run(config, events.take(events.len() - 1)).state == run(config, earlier).state);
    }
}

proof fn lemma_addressed_prefix(
    config: ResponderConfig,
    events: Seq<ResponderEvent>,
    address_of: spec_fn(Seq<char>, u16) -> Seq<char>,
)
    requires
        addresses_are_genuine(config, events, address_of),
        events.len() > 0,
    ensures
        addresses_are_genuine(config, events.drop_last(), address_of),
{
    let earlier = events.drop_last();
    assert forall|i: int| 0 <= i < earlier.len() implies (#[trigger] run(
        config,
        earlier.take(i),
    ).state matches Stage::AwaitAddress { ticket, .. } ==> (
    earlier[i] matches ResponderEvent::Address(Ok(found)) ==> found@ == address_of(
        ticket.public_ip,
        ticket.port,
    ))) by {
        assert(earlier.take(i) == events.take(i));
        let same = run(config, events.take(i)).state;
    }
}

/// Where the addresses and the tokens that came in were genuine, the token that a client is given
/// grants the connection to the very server that the client is told, to the client id that both
/// mappings were stored for.
pub proof fn law_given_token_is_for_the_server(
    config: ResponderConfig,
    events: Seq<ResponderEvent>,
    response: SessionResponse<Seq<char>>,
    address_of: spec_fn(Seq<char>, u16) -> Seq<char>,
)
    requires
        addresses_are_genuine(config, events, address_of),
        tokens_are_genuine(config, events),
        run(config, events).actions.contains(ResponderAction::Finish(Ok(response))),
    ensures
        exists|seat: Seat<Seq<char>>|
            {
                &&& #[trigger] earned(events, run(config, events).actions, seat, response)
                &&& seat.address == address_of(response.gameserver_ip, response.gameserver_port)
                &&& token::is_connect_token(
                    response.connect_token,
                    address_of(response.gameserver_ip, response.gameserver_port),
                    config.protocol_id,
                    seat.client_id,
                    config.private_key@,
                )
            },
    decreases events.len(),
{
    let told = ResponderAction::Finish(Ok(response));
    let here = run(config, events);
    let server = address_of(response.gameserver_ip, response.gameserver_port);
    law_states_are_valid(config, events);
    let k = choose|k: int| 0 <= k < here.actions.len() && here.actions[k] == told;
    assert(events.len() > 0);
    let earlier = events.drop_last();
    let event = events.last();
    let before = run(config, earlier);
    law_states_are_valid(config, earlier);
    lemma_genuine_prefix(config, events);
    lemma_addressed_prefix(config, events, address_of);
    assert(events == earlier.push(event));
    lemma_heard_all_more(earlier, event);
    lemma_recorded_more(earlier, event, before.actions, here.actions.last());
    if k < before.actions.len() {
        assert(before.actions[k] == told);
        law_given_token_is_for_the_server(config, earlier, response, address_of);
        let seat = choose|seat: Seat<Seq<char>>|
            {
                &&& #[trigger] earned(earlier, before.actions, seat, response)
                &&& seat.address == server
                &&& token::is_connect_token(
                    response.connect_token,
                    server,
                    config.protocol_id,
                    seat.client_id,
                    config.private_key@,
                )
            };
        assert(earned(events, here.actions, seat, response));
    } else {
        law_states_are_founded(config, earlier);
        lemma_tokens_are_genuine(config, earlier);
        lemma_seats_are_addressed(config, earlier, address_of);
        if let Stage::AwaitSessionStored { seat, cert_digest, connect_token } = before.state {
            let stored = |event: ResponderEvent| event matches ResponderEvent::SessionStored(Ok(_));
            assert(stored(event));
            assert(earned(events, here.actions, seat, response));
        }
    }
}

/// How often something that `what` holds of was done.
pub open spec fn times(
    actions: Seq<ResponderAction<Seq<char>>>,
    what: spec_fn(ResponderAction<Seq<char>>) -> bool,
) -> nat
    decreases actions.len(),
{
    if actions.len() == 0 {
        0
    } else {
        times(actions.drop_last(), what) + if what(actions.last()) {
            1nat
        } else {
            0
        }
    }
}

/// How often a session was to be recorded as unclaimed.
pub open spec fn records(actions: Seq<ResponderAction<Seq<char>>>) -> nat {
    times(actions, |action: ResponderAction<Seq<char>>| action is RecordUnclaimed)
}

/// How often a token was asked for.
pub open spec fn token_requests(actions: Seq<ResponderAction<Seq<char>>>) -> nat {
    times(actions, |action: ResponderAction<Seq<char>>| action is IssueToken)
}

/// How often a client id was to be mapped to a session id.
pub open spec fn client_entries(actions: Seq<ResponderAction<Seq<char>>>) -> nat {
    times(actions, |action: ResponderAction<Seq<char>>| action is StoreClient)
}

/// How often a session id was to be mapped to a client id.
pub open spec fn session_entries(actions: Seq<ResponderAction<Seq<char>>>) -> nat {
    times(actions, |action: ResponderAction<Seq<char>>| action is StoreSession)
}

/// What was asked for by the time that a request is in `state`: nothing twice, and nothing before
/// its turn.
pub open spec fn in_turn(
    actions: Seq<ResponderAction<Seq<char>>>,
    state: Stage<Seq<char>>,
) -> bool {
    &&& records(actions) <= 1
    &&& token_requests(actions) <= 1
    &&& client_entries(actions) <= token_requests(actions)
    &&& session_entries(actions) <= client_entries(actions)
    &&& match state {
        Stage::AwaitPost => records(actions) == 0 && token_requests(actions) == 0,
        Stage::AwaitPollDelay { recorded: done, .. } => (!done ==> records(actions) == 0)
            && token_requests(actions) == 0,
        Stage::AwaitFetch { recorded: done, .. } => (!done ==> records(actions) == 0)
            && token_requests(actions) == 0,
        Stage::AwaitToken { .. } => token_requests(actions) == 1 && client_entries(actions)
            == 0,
        Stage::AwaitClientStored { .. } => session_entries(actions) == 0 && client_entries(
            actions,
        ) == 1,
        Stage::AwaitSessionStored { .. } => true,
        Stage::Finished => true,
        _ => token_requests(actions) == 0,
    }
}

proof fn lemma_in_turn(config: ResponderConfig, events: Seq<ResponderEvent>)
    ensures
        in_turn(run(config, events).actions, run(config, events).state),
    decreases events.len(),
{
    law_states_are_valid(config, events);
    reveal_with_fuel(times, 2);
    if events.len() > 0 {
        let earlier = events.drop_last();
        law_states_are_valid(config, earlier);
        lemma_in_turn(config, earlier);
        assert(run(config, events).actions.drop_last() == run(config, earlier).actions);
    }
}

/// A token came in while one was awaited.
pub open spec fn token_was_given(config: ResponderConfig, events: Seq<ResponderEvent>) -> bool {
    exists|i: int|
        0 <= i < events.len() && (#[trigger] run(config, events.take(i)).state) is AwaitToken && (
        events[i] matches ResponderEvent::Token(Ok(_)))
}

proof fn lemma_entries_need_a_token(config: ResponderConfig, events: Seq<ResponderEvent>)
    ensures
        client_entries(run(config, events).actions) > 0 ==> token_was_given(config, events),
    decreases events.len(),
{
    law_states_are_valid(config, events);
    reveal_with_fuel(times, 2);
    if events.len() > 0 {
        let n = events.len() - 1;
        let earlier = events.drop_last();
        let before = run(config, earlier);
        law_states_are_valid(config, earlier);
        lemma_entries_need_a_token(config, earlier);
        assert(run(config, events).actions.drop_last() == before.actions);
        assert(earlier == events.take(n));
        if token_was_given(config, earlier) {
            let i = choose|i: int|
                0 <= i < earlier.len() && (#[trigger] run(config, earlier.take(i)).state)
                    is AwaitToken && (earlier[i] matches ResponderEvent::Token(Ok(_)));
            assert(earlier.take(i) == events.take(i));
            assert(run(config, events.take(i)).state is AwaitToken);
        } else if client_entries(run(config, events).actions) > 0 {
            assert(run(config, events).actions.last() is StoreClient);
            assert(run(config, events.take(n)).state is AwaitToken);
        }
    }
}

/// Whatever comes in, a session is to be recorded at most once, a token is asked for at most once,
/// and each mapping is to be stored at most once: the client's once a token was given, and the
/// session's once the client's was.
pub proof fn law_stored_at_most_once(config: ResponderConfig, events: Seq<ResponderEvent>)
    ensures
        ({
            let actions = run(config, events).actions;
            &&& records(actions) <= 1
            &&& token_requests(actions) <= 1
            &&& client_entries(actions) <= token_requests(actions)
            &&& session_entries(actions) <= client_entries(actions)
        }),
{
    lemma_in_turn(config, events);
}

/// A request that fails before it has a token leaves no mapping behind: none was to be stored.
pub proof fn law_nothing_is_stored_without_token(
    config: ResponderConfig,
    events: Seq<ResponderEvent>,
)
    requires
        !token_was_given(config, events),
    ensures
        client_entries(run(config, events).actions) == 0,
        session_entries(run(config, events).actions) == 0,
        forall|i: int|
            0 <= i < run(config, events).actions.len() ==> !((#[trigger] run(
                config,
                events,
            ).actions[i]) is StoreClient) && !(run(config, events).actions[i] is StoreSession),
{
    let actions = run(config, events).actions;
    lemma_in_turn(config, events);
    lemma_entries_need_a_token(config, events);
    let client = |action: ResponderAction<Seq<char>>| action is StoreClient;
    let session = |action: ResponderAction<Seq<char>>| action is StoreSession;
    assert forall|i: int| 0 <= i < actions.len() implies !((#[trigger] actions[i]) is StoreClient)
        && !(actions[i] is StoreSession) by {
        lemma_never(actions, client, i);
        lemma_never(actions, session, i);
    }
}

proof fn lemma_never(
    actions: Seq<ResponderAction<Seq<char>>>,
    what: spec_fn(ResponderAction<Seq<char>>) -> bool,
    i: int,
)
    requires
        times(actions, what) == 0,
        0 <= i < actions.len(),
    ensures
        !what(actions[i]),
    decreases actions.len(),
{
    if i < actions.len() - 1 {
        lemma_never(actions.drop_last(), what, i);
    }
}

/// What Edgegap answers when it refuses a session is what the client is answered: the code and the
/// message are passed on, and a refusal of another kind is answered with a code of its own.
pub proof fn law_refusal_is_passed_on(
    config: ResponderConfig,
    rejection: PostRejection<String>,
    shown: Seq<char>,
)
    ensures
        ({
            let refused = SessionError::Response(rejection);
            let reply = session_request::reply_to(refused@, shown);
            &&& run(config, seq![ResponderEvent::Posted(Err(refused))]).actions
                == refused_run(config, refused@)
            &&& rejection matches PostRejection::Status400(message) ==> reply.code == 400
                && reply.status == message@
            &&& rejection matches PostRejection::Status401(message) ==> reply.code == 401
                && reply.status == message@
            &&& rejection matches PostRejection::Status409(message) ==> reply.code == 409
                && reply.status == message@
            &&& rejection is Unrecognised ==> reply.code == 999
        }),
{
    let refused = SessionError::Response(rejection);
    let events = seq![ResponderEvent::Posted(Err(refused))];
    reveal_with_fuel(run, 2);
    assert(events.drop_last() == Seq::<ResponderEvent>::empty());
    assert(run(config, events).actions == refused_run(config, refused@));
}

/// All that is done for a request whose session is refused: it is created in vain, and answered.
pub open spec fn refused_run(
    config: ResponderConfig,
    error: SessionError<Seq<char>>,
) -> Seq<ResponderAction<Seq<char>>> {
    seq![session_service::begun(config).1, ResponderAction::Finish(Err(error))]
}

/// Whatever fails after the session was created is answered as an internal error that shows the
/// cause.
pub proof fn law_later_failures_are_internal(
    config: ResponderConfig,
    events: Seq<ResponderEvent>,
    error: SessionError<Seq<char>>,
    shown: Seq<char>,
    i: int,
)
    requires
        0 <= i < events.len(),
        run(config, events).actions.last() == ResponderAction::Finish(Err(error)),
        run(config, events.take(i)).state is AwaitPost,
        events[i] matches ResponderEvent::Posted(Ok(_)),
    ensures
        error is Io,
        session_request::reply_to(error, shown).code == 500,
        session_request::reply_to(error, shown).status == "error generating session: "@ + shown,
{
    if i < events.len() - 1 {
        assert(events.drop_last().take(i) == events.take(i));
        lemma_past_post(config, events.drop_last(), i);
    } else {
        assert(events.drop_last() == events.take(i));
    }
}

proof fn lemma_past_post(config: ResponderConfig, events: Seq<ResponderEvent>, i: int)
    requires
        0 <= i < events.len(),
        run(config, events.take(i)).state is AwaitPost,
        events[i] matches ResponderEvent::Posted(Ok(_)),
    ensures
        !(run(config, events).state is AwaitPost),
    decreases events.len(),
{
    let earlier = events.drop_last();
    if i < earlier.len() {
        assert(earlier.take(i) == events.take(i));
        lemma_past_post(config, earlier, i);
    } else {
        assert(earlier == events.take(i));
    }
}

/// Where a request is after `events`, once it was in `state`.
pub open spec fn resumed(
    config: ResponderConfig,
    state: Stage<Seq<char>>,
    events: Seq<ResponderEvent>,
) -> Stage<Seq<char>>
    decreases events.len(),
{
    if events.len() == 0 {
        state
    } else {
        session_service::advanced(
            config,
            resumed(config, state, events.drop_last()),
            events.last(),
        ).0
    }
}

/// An answer that no digest was found: there is none, or it could not be looked up.
pub open spec fn nothing_found(event: ResponderEvent) -> bool {
    ||| event matches ResponderEvent::Digest(Ok(None))
    ||| event matches ResponderEvent::Digest(Err(_))
}

/// The last error among `events`, or `before` where there is none.
pub open spec fn latest_error(
    before: Option<Seq<char>>,
    events: Seq<ResponderEvent>,
) -> Option<Seq<char>>
    decreases events.len(),
{
    if events.len() == 0 {
        before
    } else {
        match events.last() {
            ResponderEvent::Digest(Err(error)) => Some(error@),
            _ => latest_error(before, events.drop_last()),
        }
    }
}

proof fn lemma_keys_are_tried_in_order(
    config: ResponderConfig,
    seat: Seat<Seq<char>>,
    attempts: u32,
    last_error: Option<Seq<char>>,
    events: Seq<ResponderEvent>,
)
    requires
        events.len() <= session_service::digest_keys(seat.ticket).len(),
        forall|i: int| 0 <= i < events.len() ==> nothing_found(#[trigger] events[i]),
    ensures
        resumed(config, session_service::next_key(seat, attempts, 0, last_error).0, events)
            == session_service::next_key(
            seat,
            attempts,
            events.len() as int,
            latest_error(last_error, events),
        ).0,
    decreases events.len(),
{
    if events.len() > 0 {
        let earlier = events.drop_last();
        assert forall|i: int| 0 <= i < earlier.len() implies nothing_found(
            #[trigger] earlier[i],
        ) by {
            assert(earlier[i] == events[i]);
        }
        lemma_keys_are_tried_in_order(config, seat, attempts, last_error, earlier);
        assert(nothing_found(events[events.len() - 1]));
        lemma_key_count(seat.ticket);
    }
}

proof fn lemma_key_count(ticket: Ticket<Seq<char>>)
    ensures
        2 <= session_service::digest_keys(ticket).len() <= 4,
{
}

/// In each round the keys are asked in their order, and the first that has a digest decides.
pub proof fn law_first_digest_found_is_used(
    config: ResponderConfig,
    seat: Seat<Seq<char>>,
    attempts: u32,
    last_error: Option<Seq<char>>,
    misses: Seq<ResponderEvent>,
    digest: Vec<u8>,
)
    requires
        misses.len() < session_service::digest_keys(seat.ticket).len(),
        forall|i: int| 0 <= i < misses.len() ==> nothing_found(#[trigger] misses[i]),
        valid_utf8(digest@),
    ensures
        ({
            let start = session_service::next_key(seat, attempts, 0, last_error).0;
            let found = misses.push(ResponderEvent::Digest(Ok(Some(digest))));
            &&& resumed(config, start, misses) matches Stage::AwaitDigest { index, .. }
            &&& index == misses.len()
            &&& resumed(config, start, found) == Stage::<Seq<char>>::AwaitToken {
                seat,
                cert_digest: decode_utf8(digest@),
            }
        }),
{
    lemma_keys_are_tried_in_order(config, seat, attempts, last_error, misses);
    let found = misses.push(ResponderEvent::Digest(Ok(Some(digest))));
    assert(found.drop_last() == misses);
}

/// A round in which no key has a digest ends with a look at the clock. Where there is time, the
/// search goes on; where there is not, the request fails with the keys, the number of rounds, the time
/// and the last error.
pub proof fn law_search_ends_with_the_time(
    config: ResponderConfig,
    seat: Seat<Seq<char>>,
    attempts: u32,
    last_error: Option<Seq<char>>,
    misses: Seq<ResponderEvent>,
    elapsed: u64,
)
    requires
        misses.len() == session_service::digest_keys(seat.ticket).len(),
        forall|i: int| 0 <= i < misses.len() ==> nothing_found(#[trigger] misses[i]),
    ensures
        ({
            let start = session_service::next_key(seat, attempts, 0, last_error).0;
            let latest = latest_error(last_error, misses);
            let after = resumed(config, start, misses);
            let timed = session_service::advanced(
                config,
                after,
                ResponderEvent::Elapsed(elapsed),
            );
            &&& after == (Stage::AwaitClock { seat, attempts, last_error: latest })
            &&& elapsed >= config.cert_digest_timeout ==> timed.1 == ResponderAction::Finish(
                Err(
                    SessionError::Io(
                        session_service::digest_timeout_message(
                            session_service::digest_keys(seat.ticket),
                            attempts,
                            elapsed,
                            latest,
                        ),
                    ),
                ),
            )
            &&& elapsed < config.cert_digest_timeout ==> timed.0 == (Stage::AwaitDigestDelay {
                seat,
                attempts,
                last_error: latest,
            }) && timed.1 is SleepDigestInterval
        }),
{
    lemma_keys_are_tried_in_order(config, seat, attempts, last_error, misses);
}

/// What comes in while a session is polled, where `sessions` are fetched one after the other and the
/// first is recorded.
pub open spec fn poll_events(sessions: Seq<Session>) -> Seq<ResponderEvent>
    decreases sessions.len(),
{
    if sessions.len() == 0 {
        Seq::empty()
    } else {
        let fetched = poll_events(sessions.drop_last()).push(ResponderEvent::Slept).push(
            ResponderEvent::Fetched(Ok(sessions.last())),
        );
        if sessions.len() == 1 {
            fetched.push(ResponderEvent::Recorded(Ok(())))
        } else {
            fetched
        }
    }
}

/// A round in which the digest is not found: what is answered for each key, and the time since the
/// digest was first looked for.
pub struct Round {
    pub misses: Seq<ResponderEvent>,
    pub elapsed: u64,
}

/// No key of the server has a digest in `round`, and there is time for another round.
pub open spec fn is_in_vain(
    config: ResponderConfig,
    ticket: Ticket<Seq<char>>,
    round: Round,
) -> bool {
    &&& round.misses.len() == session_service::digest_keys(ticket).len()
    &&& forall|i: int| 0 <= i < round.misses.len() ==> nothing_found(#[trigger] round.misses[i])
    &&& round.elapsed < config.cert_digest_timeout
}

/// What comes in during `rounds`.
pub open spec fn round_events(rounds: Seq<Round>) -> Seq<ResponderEvent>
    decreases rounds.len(),
{
    if rounds.len() == 0 {
        Seq::empty()
    } else {
        (round_events(rounds.drop_last()) + rounds.last().misses).push(
            ResponderEvent::Elapsed(rounds.last().elapsed),
        ).push(ResponderEvent::Slept)
    }
}

proof fn lemma_resumed_on(
    config: ResponderConfig,
    state: Stage<Seq<char>>,
    a: Seq<ResponderEvent>,
    b: Seq<ResponderEvent>,
)
    ensures
        resumed(config, state, a + b) == resumed(config, resumed(config, state, a), b),
    decreases b.len(),
{
    if b.len() == 0 {
        assert(a + b == a);
    } else {
        assert((a + b).drop_last() == a + b.drop_last());
        lemma_resumed_on(config, state, a, b.drop_last());
    }
}

proof fn lemma_resumed_one(
    config: ResponderConfig,
    state: Stage<Seq<char>>,
    events: Seq<ResponderEvent>,
    event: ResponderEvent,
)
    ensures
        resumed(config, state, events.push(event)) == session_service::advanced(
            config,
            resumed(config, state, events),
            event,
        ).0,
{
    assert(events.push(event).drop_last() == events);
}

proof fn lemma_run_is_resumed(config: ResponderConfig, events: Seq<ResponderEvent>)
    ensures
        run(config, events).state == resumed(config, session_service::begun(config).0, events),
    decreases events.len(),
{
    if events.len() > 0 {
        lemma_run_is_resumed(config, events.drop_last());
    }
}

proof fn lemma_polling(config: ResponderConfig, created: Seq<char>, sessions: Seq<Session>)
    requires
        1 <= sessions.len() <= session_service::MAX_POLLS + 1,
        forall|i: int| 0 <= i < sessions.len() - 1 ==> !(#[trigger] sessions[i]).ready,
    ensures
        ({
            let start = Stage::AwaitPollDelay { created, tries: 0, recorded: false };
            let end = resumed(config, start, poll_events(sessions));
            &&& sessions.last().ready ==> end == session_service::located(sessions.last()).0
            &&& !sessions.last().ready && sessions.len() <= session_service::MAX_POLLS ==> end
                == (Stage::AwaitPollDelay {
                created,
                tries: sessions.len() as u32,
                recorded: true,
            })
        }),
    decreases sessions.len(),
{
    let start = Stage::AwaitPollDelay { created, tries: 0, recorded: false };
    let earlier = sessions.drop_last();
    let polled = poll_events(earlier);
    if sessions.len() == 1 {
        assert(polled == Seq::<ResponderEvent>::empty());
    } else {
        assert forall|i: int| 0 <= i < earlier.len() - 1 implies !(#[trigger] earlier[i]).ready by {
            assert(earlier[i] == sessions[i]);
        }
        assert(earlier.last() == sessions[sessions.len() - 2]);
        lemma_polling(config, created, earlier);
    }
    let fetched = ResponderEvent::Fetched(Ok(sessions.last()));
    let slept = polled.push(ResponderEvent::Slept);
    lemma_resumed_one(config, start, polled, ResponderEvent::Slept);
    lemma_resumed_one(config, start, slept, fetched);
    lemma_resumed_one(config, start, slept.push(fetched), ResponderEvent::Recorded(Ok(())));
}

/// A session that is not ready by the last time that it is fetched is given up, with a message that
/// says so.
pub proof fn law_given_up_after_the_last_poll(
    config: ResponderConfig,
    id: String,
    sessions: Seq<Session>,
)
    requires
        sessions.len() == session_service::MAX_POLLS + 1,
        forall|i: int| 0 <= i < sessions.len() ==> !(#[trigger] sessions[i]).ready,
    ensures
        ({
            let events = seq![ResponderEvent::Posted(Ok(id))] + poll_events(sessions);
            run(config, events).actions.last() == ResponderAction::Finish(
                Err(SessionError::Io("session not ready timeout on tries"@)),
            )
        }),
{
    let begun = session_service::begun(config).0;
    let posted = seq![ResponderEvent::Posted(Ok(id))];
    let earlier = sessions.drop_last();
    let last = ResponderEvent::Fetched(Ok(sessions.last()));
    let empty = Seq::<ResponderEvent>::empty();
    assert(posted == empty.push(ResponderEvent::Posted(Ok(id))));
    lemma_resumed_one(config, begun, empty, ResponderEvent::Posted(Ok(id)));
    assert forall|i: int| 0 <= i < earlier.len() implies !(#[trigger] earlier[i]).ready by {
        assert(earlier[i] == sessions[i]);
    }
    assert(!earlier.last().ready);
    assert(!sessions[sessions.len() - 1].ready);
    lemma_polling(config, id@, earlier);
    lemma_resumed_on(config, begun, posted, poll_events(earlier));
    let polled = posted + poll_events(earlier);
    let slept = polled.push(ResponderEvent::Slept);
    lemma_resumed_one(config, begun, polled, ResponderEvent::Slept);
    assert(posted + poll_events(sessions) == slept.push(last));
    assert(slept.push(last).drop_last() == slept);
    lemma_run_is_resumed(config, slept);
}

proof fn lemma_rounds(
    config: ResponderConfig,
    seat: Seat<Seq<char>>,
    rounds: Seq<Round>,
) -> (state: (u32, Option<Seq<char>>))
    requires
        forall|i: int|
            0 <= i < rounds.len() ==> is_in_vain(config, seat.ticket, #[trigger] rounds[i]),
    ensures
        resumed(config, session_service::next_key(seat, 1, 0, None).0, round_events(rounds))
            == session_service::next_key(seat, state.0, 0, state.1).0,
    decreases rounds.len(),
{
    let start = session_service::next_key(seat, 1, 0, None).0;
    if rounds.len() == 0 {
        (1, None)
    } else {
        let earlier = rounds.drop_last();
        let round = rounds.last();
        assert forall|i: int| 0 <= i < earlier.len() implies is_in_vain(
            config,
            seat.ticket,
            #[trigger] earlier[i],
        ) by {
            assert(earlier[i] == rounds[i]);
        }
        let (attempts, last_error) = lemma_rounds(config, seat, earlier);
        assert(is_in_vain(config, seat.ticket, rounds[rounds.len() - 1]));
        let searched = round_events(earlier) + round.misses;
        let timed = searched.push(ResponderEvent::Elapsed(round.elapsed));
        lemma_resumed_on(config, start, round_events(earlier), round.misses);
        lemma_keys_are_tried_in_order(config, seat, attempts, last_error, round.misses);
        lemma_resumed_one(config, start, searched, ResponderEvent::Elapsed(round.elapsed));
        lemma_resumed_one(config, start, timed, ResponderEvent::Slept);
        ((attempts + 1) as u32, latest_error(last_error, round.misses))
    }
}

/// What comes in when a session is served: `sessions` are fetched until the last is ready, the digest
/// is looked for in vain in `rounds` and under as many keys as there are `misses`, and then found.
pub open spec fn served_events(
    id: String,
    sessions: Seq<Session>,
    client_id: u64,
    address: String,
    rounds: Seq<Round>,
    misses: Seq<ResponderEvent>,
    digest: Vec<u8>,
    connect_token: String,
) -> Seq<ResponderEvent> {
    seq![ResponderEvent::Posted(Ok(id))] + poll_events(sessions) + seq![
        ResponderEvent::ClientId(client_id),
        ResponderEvent::Address(Ok(address)),
    ] + round_events(rounds) + misses + seq![
        ResponderEvent::Digest(Ok(Some(digest))),
        ResponderEvent::Token(Ok(connect_token)),
        ResponderEvent::ClientStored(Ok(())),
        ResponderEvent::SessionStored(Ok(())),
    ]
}

/// A session that is ready by the last time that it is fetched, on a deployment with an external
/// port, and whose digest is found while there is time, is answered where nothing fails: with the
/// server's address, its port, its digest and the token that was issued.
pub proof fn law_served_when_nothing_fails(
    config: ResponderConfig,
    id: String,
    sessions: Seq<Session>,
    client_id: u64,
    address: String,
    rounds: Seq<Round>,
    misses: Seq<ResponderEvent>,
    digest: Vec<u8>,
    connect_token: String,
    ticket: Ticket<Seq<char>>,
)
    requires
        1 <= sessions.len() <= session_service::MAX_POLLS + 1,
        forall|i: int| 0 <= i < sessions.len() - 1 ==> !(#[trigger] sessions[i]).ready,
        sessions.last().ready,
        session_service::located(sessions.last()).0 == (Stage::AwaitClientId { ticket }),
        forall|i: int| 0 <= i < rounds.len() ==> is_in_vain(config, ticket, #[trigger] rounds[i]),
        misses.len() < session_service::digest_keys(ticket).len(),
        forall|i: int| 0 <= i < misses.len() ==> nothing_found(#[trigger] misses[i]),
        valid_utf8(digest@),
    ensures
        run(
            config,
            served_events(
                id,
                sessions,
                client_id,
                address,
                rounds,
                misses,
                digest,
                connect_token,
            ),
        ).actions.last() == ResponderAction::Finish(
            Ok(
                (SessionResponse {
                    connect_token: connect_token@,
                    gameserver_ip: ticket.public_ip,
                    gameserver_port: ticket.port,
                    cert_digest: decode_utf8(digest@),
                }),
            ),
        ),
{
    let begun = session_service::begun(config).0;
    let seat = Seat { ticket, client_id, address: address@ };
    let posted = seq![ResponderEvent::Posted(Ok(id))];
    let polled = posted + poll_events(sessions);
    let seated_by = seq![
        ResponderEvent::ClientId(client_id),
        ResponderEvent::Address(Ok(address)),
    ];
    let known = polled + seated_by;
    let searched = known + round_events(rounds);
    let missed = searched + misses;
    let found = missed.push(ResponderEvent::Digest(Ok(Some(digest))));
    let given = found.push(ResponderEvent::Token(Ok(connect_token)));
    let mapped = given.push(ResponderEvent::ClientStored(Ok(())));
    let all = mapped.push(ResponderEvent::SessionStored(Ok(())));

    let empty = Seq::<ResponderEvent>::empty();
    assert(posted == empty.push(ResponderEvent::Posted(Ok(id))));
    lemma_resumed_one(config, begun, empty, ResponderEvent::Posted(Ok(id)));
    lemma_resumed_on(config, begun, posted, poll_events(sessions));
    lemma_polling(config, id@, sessions);
    assert(resumed(config, begun, polled) == (Stage::AwaitClientId { ticket }));

    let drawn = polled.push(ResponderEvent::ClientId(client_id));
    assert(known == drawn.push(ResponderEvent::Address(Ok(address))));
    lemma_resumed_one(config, begun, polled, ResponderEvent::ClientId(client_id));
    lemma_resumed_one(config, begun, drawn, ResponderEvent::Address(Ok(address)));
    assert(resumed(config, begun, known) == session_service::next_key(seat, 1, 0, None).0);

    let (attempts, last_error) = lemma_rounds(config, seat, rounds);
    lemma_resumed_on(config, begun, known, round_events(rounds));
    lemma_resumed_on(config, begun, searched, misses);
    lemma_keys_are_tried_in_order(config, seat, attempts, last_error, misses);

    lemma_resumed_one(config, begun, missed, ResponderEvent::Digest(Ok(Some(digest))));
    lemma_resumed_one(config, begun, found, ResponderEvent::Token(Ok(connect_token)));
    lemma_resumed_one(config, begun, given, ResponderEvent::ClientStored(Ok(())));
    assert(all == served_events(
        id,
        sessions,
        client_id,
        address,
        rounds,
        misses,
        digest,
        connect_token,
    ));
    assert(all.drop_last() == mapped);
    lemma_run_is_resumed(config, mapped);
}

} // verus!
