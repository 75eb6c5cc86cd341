//! What a game server tells the matchmaker: that it is ready, who is connected, and how full it is.
//!
//! Sending is done elsewhere. What is to be sent, and when, is decided here.
use crate::edgegap_context;
use crate::edgegap_context::ArbitriumContext;
use crate::json;
use crate::nats;
use crate::protocol;
use crate::protocol::DeploymentMetrics;
use crate::protocol::DeploymentRoomMetrics;
use crate::session_service;
use crate::session_service::Ticket;
use crate::text;
use std::collections::HashMap;
use vstd::prelude::*;
use vstd::string::*;
use vstd::utf8::*;

verus! {

broadcast use vstd::std_specs::hash::group_hash_axioms;

/// The argument behind which the certificate authority stands on the command line.
pub const CA_CONTENTS_FLAG: &'static str = "--ca_contents";

/// Where the contexts of game servers are announced, before the namespace.
pub const CONTEXTS_SUBJECT_BASE: &'static str = "gameserver.contexts";

// ---------------------------------------------------------------------------
// Command line
// ---------------------------------------------------------------------------

/// The certificate authority on the command line: what stands behind the first flag.
pub fn ca_contents_arg(args: &Vec<String>) -> (r: Option<String>)
    ensures
        match r {
            Some(contents) => exists|i: int|
                {
                    &&& 0 <= i < args@.len() - 1
                    &&& (#[trigger] args@[i])@ == CA_CONTENTS_FLAG@
                    &&& forall|j: int|
                        0 <= j < i ==> (#[trigger] args@[j])@ != CA_CONTENTS_FLAG@
                    &&& contents@ == args@[i + 1]@
                },
            None => forall|i: int|
                0 <= i < args@.len() - 1 ==> (#[trigger] args@[i])@ != CA_CONTENTS_FLAG@,
        },
{
    if args.len() < 2 {
        return None;
    }
    let mut i: usize = 0;
    while i < args.len() - 1
        invariant
            2 <= args@.len(),
            i <= args@.len() - 1,
            forall|j: int| 0 <= j < i ==> (#[trigger] args@[j])@ != CA_CONTENTS_FLAG@,
        decreases args@.len() - i,
    {
        if text::same_text(args[i].as_str(), CA_CONTENTS_FLAG) {
            let contents = args[i + 1].clone();
            assert(args@[i as int]@ == CA_CONTENTS_FLAG@);
            return Some(contents);
        }
        i += 1;
    }
    None
}

// ---------------------------------------------------------------------------
// Readiness
// ---------------------------------------------------------------------------

/// Whether the server has been announced, and what was last missing for it.
#[derive(Debug)]
pub struct BevygapReadiness {
    published: bool,
    last_missing: Option<String>,
}

/// A [`BevygapReadiness`] in contracts.
pub struct ReadinessView {
    pub published: bool,
    pub last_missing: Option<Seq<char>>,
}

impl View for BevygapReadiness {
    type V = ReadinessView;

    closed spec fn view(&self) -> ReadinessView {
        ReadinessView {
            published: self.published,
            last_missing: text::opt_text(self.last_missing),
        }
    }
}

/// What there is of the things that an announcement needs.
pub struct Parts<'a> {
    pub context: Option<&'a ArbitriumContext>,
    pub digest: Option<&'a str>,
    pub has_nats: bool,
    pub has_sender: bool,
}

/// [`Parts`] in contracts.
pub struct PartsView {
    pub context: Option<json::Entries>,
    pub digest: Option<Seq<char>>,
    pub has_nats: bool,
    pub has_sender: bool,
}

impl<'a> View for Parts<'a> {
    type V = PartsView;

    open spec fn view(&self) -> PartsView {
        PartsView {
            context: match self.context {
                Some(context) => Some(context.entries()),
                None => None,
            },
            digest: text::opt_str(self.digest),
            has_nats: self.has_nats,
            has_sender: self.has_sender,
        }
    }
}

/// What to do about an announcement.
#[derive(Debug)]
pub enum ReadinessStep {
    /// Nothing: the server has been announced.
    Done,
    /// Wait for what is missing. `changed` says whether something else was missing before.
    Waiting { missing: String, changed: bool },
    /// Announce the server: store `digest` under each of `keys`, and publish `context`.
    Publish { keys: Vec<String>, digest: String, context: ArbitriumContext },
}

/// A [`ReadinessStep`] in contracts.
pub enum ReadinessStepView {
    Done,
    Waiting { missing: Seq<char>, changed: bool },
    Publish { keys: Seq<Seq<char>>, digest: Seq<char>, context: json::Entries },
}

impl View for ReadinessStep {
    type V = ReadinessStepView;

    open spec fn view(&self) -> ReadinessStepView {
        match self {
            ReadinessStep::Done => ReadinessStepView::Done,
            ReadinessStep::Waiting { missing, changed } => ReadinessStepView::Waiting {
                missing: missing@,
                changed: *changed,
            },
            ReadinessStep::Publish { keys, digest, context } => ReadinessStepView::Publish {
                keys: text::texts(keys@),
                digest: digest@,
                context: context.entries(),
            },
        }
    }
}

/// What is missing for an announcement.
pub open spec fn missing_parts(parts: PartsView) -> Seq<Seq<char>> {
    let none = Seq::<Seq<char>>::empty();
    (if parts.context is None {
        seq!["Edgegap context"@]
    } else {
        none
    }) + (if parts.digest is None {
        seq!["WebTransport certificate digest"@]
    } else {
        none
    }) + (if !parts.has_nats {
        seq!["NATS connection"@]
    } else {
        none
    }) + (if !parts.has_sender {
        seq!["NATS sender"@]
    } else {
        none
    })
}

/// Nothing is missing for an announcement.
pub open spec fn is_complete(parts: PartsView) -> bool {
    parts.context is Some && parts.digest is Some && parts.has_nats && parts.has_sender
}

/// The context says which deployment it is of, and where. It need not say the domain name: nothing
/// that is announced or told holds it.
pub open spec fn is_identified(context: json::Entries) -> bool {
    &&& edgegap_context::string_at(context, "request_id"@) is Some
    &&& edgegap_context::string_at(context, "public_ip"@) is Some
}

/// The keys that the digest of a deployment is stored under.
pub open spec fn published_keys(context: json::Entries) -> Seq<Seq<char>> {
    nats::lookup_keys(
        edgegap_context::string_at(context, "request_id"@),
        edgegap_context::string_at(context, "public_ip"@)->0,
        edgegap_context::game_port_in(context),
    )
}

/// Where an announcement goes on, and what is done about it.
pub open spec fn readied(state: ReadinessView, parts: PartsView) -> (
    ReadinessView,
    ReadinessStepView,
) {
    if state.published {
        (state, ReadinessStepView::Done)
    } else if !is_complete(parts) {
        let missing = text::joined(missing_parts(parts), ", "@);
        (
            ReadinessView { published: false, last_missing: Some(missing) },
            ReadinessStepView::Waiting { missing, changed: state.last_missing != Some(missing) },
        )
    } else {
        (
            ReadinessView { published: true, last_missing: state.last_missing },
            ReadinessStepView::Publish {
                keys: published_keys(parts.context->0),
                digest: parts.digest->0,
                context: parts.context->0,
            },
        )
    }
}

fn list_missing(parts: &Parts) -> (r: String)
    ensures
        r@ == text::joined(missing_parts(parts@), ", "@),
{
    let mut missing: Vec<String> = Vec::new();
    assert(text::texts(missing@) == Seq::<Seq<char>>::empty());
    if parts.context.is_none() {
        text::push_text(&mut missing, "Edgegap context".to_owned());
    }
    if parts.digest.is_none() {
        text::push_text(&mut missing, "WebTransport certificate digest".to_owned());
    }
    if !parts.has_nats {
        text::push_text(&mut missing, "NATS connection".to_owned());
    }
    if !parts.has_sender {
        text::push_text(&mut missing, "NATS sender".to_owned());
    }
    assert(text::texts(missing@) == missing_parts(parts@));
    text::join(&missing, ", ")
}

impl BevygapReadiness {
    /// At the start: nothing has been announced, and nothing was missing.
    pub fn new() -> (r: Self)
        ensures
            r@ == (ReadinessView { published: false, last_missing: None }),
    {
        BevygapReadiness { published: false, last_missing: None }
    }

    /// Whether the server has been announced.
    pub fn is_published(&self) -> (r: bool)
        ensures
            r == self@.published,
    {
        self.published
    }

    /// Announces the server once everything is there.
    ///
    /// The NATS connection, the context and the certificate come about on different paths, and in
    /// any order; this is called until all are there, and then announces the server exactly once.
    pub fn publish_readiness(&mut self, parts: Parts) -> (r: ReadinessStep)
        requires
            !old(self)@.published && is_complete(parts@) ==> is_identified(
                parts@.context->0,
            ),
        ensures
            (final(self)@, r@) == readied(old(self)@, parts@),
    {
        if self.published {
            return ReadinessStep::Done;
        }
        match (parts.context, parts.digest) {
            (Some(context), Some(digest)) if parts.has_nats && parts.has_sender => {
                let request_id = context.request_id();
                let public_ip = context.public_ip();
                let external_port = context.game_external_port();
                let keys = nats::cert_digest_lookup_keys(
                    Some(request_id.as_str()),
                    public_ip.as_str(),
                    external_port,
                );
                self.published = true;
                ReadinessStep::Publish { keys, digest: digest.to_owned(), context: context.clone() }
            },
            _ => {
                let missing = list_missing(&parts);
                let changed = match &self.last_missing {
                    Some(last) => !text::same_text(last.as_str(), missing.as_str()),
                    None => true,
                };
                if changed {
                    self.last_missing = Some(missing.clone());
                }
                ReadinessStep::Waiting { missing, changed }
            },
        }
    }
}

impl ArbitriumContext {
    /// Whether the context says which deployment it is of, and where.
    pub fn identifies_deployment(&self) -> (r: bool)
        ensures
            r == is_identified(self.entries()),
    {
        self.find_string("request_id").is_some() && self.find_string("public_ip").is_some()
    }
}

// ---------------------------------------------------------------------------
// Metrics
// ---------------------------------------------------------------------------

/// How full the game says it is.
#[derive(Debug)]
pub struct BevygapDeploymentMetrics {
    pub total_players: u32,
    pub max_players: u32,
    pub max_rooms: u32,
    pub rooms: Vec<DeploymentRoomMetrics>,
}

impl Clone for BevygapDeploymentMetrics {
    fn clone(&self) -> (r: Self)
        ensures
            r.total_players == self.total_players,
            r.max_players == self.max_players,
            r.max_rooms == self.max_rooms,
            protocol::room_views(r.rooms@) == protocol::room_views(self.rooms@),
    {
        BevygapDeploymentMetrics {
            total_players: self.total_players,
            max_players: self.max_players,
            max_rooms: self.max_rooms,
            rooms: protocol::copy_rooms(&self.rooms),
        }
    }
}

/// The metrics of the deployment that `context` is of.
pub open spec fn metrics_of(context: json::Entries, metrics: BevygapDeploymentMetrics) ->
    protocol::DeploymentMetricsView {
    protocol::DeploymentMetricsView {
        request_id: edgegap_context::string_at(context, "request_id"@)->0,
        public_ip: edgegap_context::string_at(context, "public_ip"@)->0,
        external_port: edgegap_context::game_port_in(context),
        total_players: metrics.total_players,
        max_players: metrics.max_players,
        max_rooms: metrics.max_rooms,
        rooms: protocol::room_views(metrics.rooms@),
    }
}

/// The metrics to send, once there is a context and a way to send them.
pub fn deployment_metrics_update(
    context: Option<&ArbitriumContext>,
    has_sender: bool,
    metrics: &BevygapDeploymentMetrics,
) -> (r: Option<DeploymentMetrics>)
    requires
        context is Some && has_sender ==> is_identified(context->0.entries()),
    ensures
        r is Some <==> context is Some && has_sender,
        r matches Some(sent) ==> sent@ == metrics_of(context->0.entries(), *metrics),
        r matches Some(sent) ==> {
            &&& sent.total_players == metrics.total_players
            &&& sent.max_players == metrics.max_players
            &&& sent.max_rooms == metrics.max_rooms
            &&& sent.rooms@.len() == metrics.rooms@.len()
            &&& forall|i: int|
                0 <= i < metrics.rooms@.len() ==> {
                    &&& (#[trigger] sent.rooms@[i]).key@ == metrics.rooms@[i].key@
                    &&& sent.rooms@[i].private == metrics.rooms@[i].private
                    &&& sent.rooms@[i].players == metrics.rooms@[i].players
                    &&& sent.rooms@[i].max_players == metrics.rooms@[i].max_players
                }
        },
{
    match context {
        Some(context) => {
            if !has_sender {
                return None;
            }
            Some(
                DeploymentMetrics {
                    request_id: context.request_id(),
                    public_ip: context.public_ip(),
                    external_port: context.game_external_port(),
                    total_players: metrics.total_players,
                    max_players: metrics.max_players,
                    max_rooms: metrics.max_rooms,
                    rooms: protocol::copy_rooms(&metrics.rooms),
                },
            )
        },
        None => None,
    }
}

// ---------------------------------------------------------------------------
// Events
// ---------------------------------------------------------------------------

/// Something that the matchmaker is to be told.
#[derive(Debug)]
pub enum NatsEvent {
    ClientConnected(u64),
    ClientDisconnected(u64),
    ArbitriumContext(ArbitriumContext),
    CertDigest(Vec<String>, String),
    DeploymentMetrics(DeploymentMetrics),
}

/// How the matchmaker is told.
#[derive(Debug)]
pub enum NatsAction {
    /// Look up the session of a client, and go on with what was found.
    FindSession { key: String },
    /// The client has no session, or it could not be looked up.
    NoSession,
    /// What is stored for the client is not text.
    BadSession,
    /// Store the client under its session in the active connections.
    PutConnection { session_id: String, client_id: String },
    /// Delete the session from the active connections.
    DeleteConnection { session_id: String },
    /// The client was not connected.
    NotConnected,
    /// Publish the context.
    PublishContext { subject: String, payload: Vec<u8> },
    /// Store the digest under each key, in their order.
    PutDigest { keys: Vec<String>, digest: String },
    /// Store the metrics under the key.
    PutMetrics { key: String, metrics: DeploymentMetrics },
}

/// A [`NatsAction`] in contracts.
pub enum NatsActionView {
    FindSession { key: Seq<char> },
    NoSession,
    BadSession,
    PutConnection { session_id: Seq<char>, client_id: Seq<char> },
    DeleteConnection { session_id: Seq<char> },
    NotConnected,
    PublishContext { subject: Seq<char>, payload: Seq<u8> },
    PutDigest { keys: Seq<Seq<char>>, digest: Seq<char> },
    PutMetrics { key: Seq<char>, metrics: protocol::DeploymentMetricsView },
}

impl View for NatsAction {
    type V = NatsActionView;

    open spec fn view(&self) -> NatsActionView {
        match self {
            NatsAction::FindSession { key } => NatsActionView::FindSession { key: key@ },
            NatsAction::NoSession => NatsActionView::NoSession,
            NatsAction::BadSession => NatsActionView::BadSession,
            NatsAction::PutConnection { session_id, client_id } => NatsActionView::PutConnection {
                session_id: session_id@,
                client_id: client_id@,
            },
            NatsAction::DeleteConnection { session_id } => NatsActionView::DeleteConnection {
                session_id: session_id@,
            },
            NatsAction::NotConnected => NatsActionView::NotConnected,
            NatsAction::PublishContext { subject, payload } => NatsActionView::PublishContext {
                subject: subject@,
                payload: payload@,
            },
            NatsAction::PutDigest { keys, digest } => NatsActionView::PutDigest {
                keys: text::texts(keys@),
                digest: digest@,
            },
            NatsAction::PutMetrics { key, metrics } => NatsActionView::PutMetrics {
                key: key@,
                metrics: metrics@,
            },
        }
    }
}

/// The sessions of the clients that are connected.
#[derive(Debug)]
pub struct Connections {
    client_id_to_session_id: HashMap<u64, String>,
}

impl View for Connections {
    type V = Map<u64, Seq<char>>;

    closed spec fn view(&self) -> Map<u64, Seq<char>> {
        self.client_id_to_session_id@.map_values(|session_id: String| session_id@)
    }
}

/// How an event is told, and which connections there are then.
pub open spec fn told(
    connections: Map<u64, Seq<char>>,
    namespace: Option<Seq<char>>,
    event: NatsEvent,
) -> (Map<u64, Seq<char>>, NatsActionView) {
    match event {
        NatsEvent::ClientConnected(client_id) => (
            connections,
            NatsActionView::FindSession { key: text::decimal(client_id as nat) },
        ),
        NatsEvent::ClientDisconnected(client_id) => if connections.contains_key(client_id) {
            (
                connections.remove(client_id),
                NatsActionView::DeleteConnection { session_id: connections[client_id] },
            )
        } else {
            (connections, NatsActionView::NotConnected)
        },
        NatsEvent::ArbitriumContext(context) => (
            connections,
            NatsActionView::PublishContext {
                subject: nats::subject_name(namespace, CONTEXTS_SUBJECT_BASE@),
                payload: json::serialized(context.entries()),
            },
        ),
        NatsEvent::CertDigest(keys, digest) => (
            connections,
            NatsActionView::PutDigest { keys: text::texts(keys@), digest: digest@ },
        ),
        NatsEvent::DeploymentMetrics(metrics) => (
            connections,
            NatsActionView::PutMetrics {
                key: nats::deployment_key(metrics.request_id@),
                metrics: metrics@,
            },
        ),
    }
}

/// How a connection is told once the session of the client was looked up, and which connections
/// there are then.
pub open spec fn connected(
    connections: Map<u64, Seq<char>>,
    client_id: u64,
    found: Option<Seq<u8>>,
) -> (Map<u64, Seq<char>>, NatsActionView) {
    match found {
        Some(bytes) => if valid_utf8(bytes) {
            (
                connections.insert(client_id, decode_utf8(bytes)),
                NatsActionView::PutConnection {
                    session_id: decode_utf8(bytes),
                    client_id: text::decimal(client_id as nat),
                },
            )
        } else {
            (connections, NatsActionView::BadSession)
        },
        None => (connections, NatsActionView::NoSession),
    }
}

/// What is sent is flushed after an event, except where the session of a client is not text, and
/// where metrics could not be put into text. `serialized` says whether they could.
pub open spec fn flushes(action: NatsActionView, serialized: bool) -> bool {
    !(action is BadSession) && (action is PutMetrics ==> serialized)
}

impl NatsAction {
    /// Whether what is sent is flushed afterwards. `serialized` says whether metrics that are sent
    /// could be put into text; it counts for nothing else.
    pub fn needs_flush(&self, serialized: bool) -> (r: bool)
        ensures
            r == flushes(self@, serialized),
    {
        match self {
            NatsAction::BadSession => false,
            NatsAction::PutMetrics { .. } => serialized,
            _ => true,
        }
    }
}

impl Connections {
    /// At the start no one is connected.
    pub fn new() -> (r: Self)
        ensures
            r@ == Map::<u64, Seq<char>>::empty(),
    {
        let r = Connections { client_id_to_session_id: HashMap::new() };
        assert(r@ == Map::<u64, Seq<char>>::empty());
        r
    }

    /// How to tell an event.
    pub fn tell(&mut self, namespace_var: Option<&str>, event: NatsEvent) -> (r: NatsAction)
        ensures
            (final(self)@, r@) == told(old(self)@, text::opt_str(namespace_var), event),
    {
        match event {
            NatsEvent::ClientConnected(client_id) => NatsAction::FindSession {
                key: text::decimal_string(client_id),
            },
            NatsEvent::ClientDisconnected(client_id) => {
                let ghost before = self@;
                match self.client_id_to_session_id.remove(&client_id) {
                    Some(session_id) => {
                        assert(self@ == before.remove(client_id));
                        NatsAction::DeleteConnection { session_id }
                    },
                    None => {
                        assert(self@ == before);
                        NatsAction::NotConnected
                    },
                }
            },
            NatsEvent::ArbitriumContext(context) => NatsAction::PublishContext {
                subject: nats::nats_subject_name(namespace_var, CONTEXTS_SUBJECT_BASE),
                payload: context.to_bytes(),
            },
            NatsEvent::CertDigest(keys, digest) => NatsAction::PutDigest { keys, digest },
            NatsEvent::DeploymentMetrics(metrics) => {
                let key = nats::deployment_metrics_key(metrics.request_id.as_str());
                NatsAction::PutMetrics { key, metrics }
            },
        }
    }

    /// How to tell a connection, once the session of the client was looked up: `found` is what was
    /// stored, and nothing where nothing was or the lookup failed.
    pub fn session_found(&mut self, client_id: u64, found: Option<Vec<u8>>) -> (r: NatsAction)
        ensures
            (final(self)@, r@) == connected(
                old(self)@,
                client_id,
                match found {
                    Some(bytes) => Some(bytes@),
                    None => None,
                },
            ),
    {
        match found {
            Some(bytes) => match text::decode_utf8_bytes(bytes) {
                Ok(session_id) => {
                    let ghost before = self@;
                    self.client_id_to_session_id.insert(client_id, session_id.clone());
                    assert(self@ == before.insert(client_id, session_id@));
                    NatsAction::PutConnection {
                        session_id,
                        client_id: text::decimal_string(client_id),
                    }
                },
                Err(_) => NatsAction::BadSession,
            },
            None => NatsAction::NoSession,
        }
    }
}

// ---------------------------------------------------------------------------
// Laws
// ---------------------------------------------------------------------------

/// Where an announcement is after it was tried with each of `tries`, and what was done about it.
pub open spec fn readied_after(tries: Seq<PartsView>) -> (ReadinessView, Seq<ReadinessStepView>)
    decreases tries.len(),
{
    if tries.len() == 0 {
        (ReadinessView { published: false, last_missing: None }, Seq::empty())
    } else {
        let before = readied_after(tries.drop_last());
        let step = readied(before.0, tries.last());
        (step.0, before.1.push(step.1))
    }
}

/// How often the server was announced.
pub open spec fn announcements(steps: Seq<ReadinessStepView>) -> nat
    decreases steps.len(),
{
    if steps.len() == 0 {
        0
    } else {
        announcements(steps.drop_last()) + if steps.last() is Publish {
            1nat
        } else {
            0
        }
    }
}

/// The server is announced exactly once from when everything is there, and not before.
pub proof fn law_announced_exactly_once(tries: Seq<PartsView>)
    ensures
        announcements(readied_after(tries).1) == (if exists|i: int|
            0 <= i < tries.len() && is_complete(#[trigger] tries[i]) {
            1nat
        } else {
            0nat
        }),
        readied_after(tries).0.published <==> exists|i: int|
            0 <= i < tries.len() && is_complete(#[trigger] tries[i]),
    decreases tries.len(),
{
    if tries.len() > 0 {
        let earlier = tries.drop_last();
        law_announced_exactly_once(earlier);
        let before = readied_after(earlier);
        let step = readied(before.0, tries.last());
        assert(readied_after(tries).1.drop_last() == before.1);
        if exists|i: int| 0 <= i < earlier.len() && is_complete(#[trigger] earlier[i]) {
            let i = choose|i: int| 0 <= i < earlier.len() && is_complete(#[trigger] earlier[i]);
            assert(is_complete(tries[i]));
        } else if is_complete(tries.last()) {
            assert(is_complete(tries[tries.len() - 1]));
        } else {
            assert forall|i: int| 0 <= i < tries.len() implies !is_complete(#[trigger] tries[i]) by {
                if i < earlier.len() {
                    assert(earlier[i] == tries[i]);
                }
            }
        }
    }
}

/// What is missing is listed exactly while something is.
pub proof fn law_missing_is_listed(parts: PartsView)
    ensures
        missing_parts(parts).len() == 0 <==> is_complete(parts),
{
}

/// The matchmaker, which knows the server of a session by the deployment, its address and its port,
/// finds the digest that the server announced: under the deployment, where its id is not blank, and
/// under the address; and where both know the same port, the keys are the same.
pub proof fn law_announced_digest_is_found(context: json::Entries, ticket: Ticket<Seq<char>>)
    requires
        edgegap_context::string_at(context, "request_id"@) == Some(ticket.request_id),
        edgegap_context::string_at(context, "public_ip"@) == Some(ticket.public_ip),
    ensures
        ({
            let announced = published_keys(context);
            let looked_up = session_service::digest_keys(ticket);
            let deployment = nats::deployment_key(ticket.request_id);
            let address = nats::public_ip_key(ticket.public_ip);
            &&& !text::is_blank(ticket.request_id) ==> announced[0] == deployment && looked_up[0]
                == deployment
            &&& announced.contains(address) && looked_up.contains(address)
            &&& edgegap_context::game_port_in(context) == Some(ticket.port) ==> announced
                == looked_up
        }),
{
    let announced = published_keys(context);
    let looked_up = session_service::digest_keys(ticket);
    let address = nats::public_ip_key(ticket.public_ip);
    let id = if text::is_blank(ticket.request_id) {
        0int
    } else {
        1int
    };
    let port = if edgegap_context::game_port_in(context) is Some {
        1int
    } else {
        0int
    };
    assert(announced[id + port] == address);
    assert(looked_up[id + 1] == address);
}

/// Deleting a connection undoes storing it: what is deleted when a client leaves is what was stored
/// when it came, and the other connections are as they were.
pub proof fn law_disconnect_undoes_connect(
    connections: Map<u64, Seq<char>>,
    namespace: Option<Seq<char>>,
    client_id: u64,
    session: Seq<u8>,
)
    requires
        valid_utf8(session),
    ensures
        ({
            let came = connected(connections, client_id, Some(session));
            let left = told(came.0, namespace, NatsEvent::ClientDisconnected(client_id));
            &&& came.1 == (NatsActionView::PutConnection {
                session_id: decode_utf8(session),
                client_id: text::decimal(client_id as nat),
            })
            &&& left.1 == (NatsActionView::DeleteConnection { session_id: decode_utf8(session) })
            &&& left.0 == connections.remove(client_id)
        }),
{
    let came = connected(connections, client_id, Some(session));
    let left = told(came.0, namespace, NatsEvent::ClientDisconnected(client_id));
    assert(left.0 == connections.remove(client_id));
}

/// What one client does changes nothing for another.
pub proof fn law_clients_are_apart(
    connections: Map<u64, Seq<char>>,
    namespace: Option<Seq<char>>,
    client_id: u64,
    other: u64,
    found: Option<Seq<u8>>,
)
    requires
        client_id != other,
    ensures
        ({
            let came = connected(connections, client_id, found).0;
            let left = told(connections, namespace, NatsEvent::ClientDisconnected(client_id)).0;
            &&& came.contains_key(other) <==> connections.contains_key(other)
            &&& left.contains_key(other) <==> connections.contains_key(other)
            &&& connections.contains_key(other) ==> came[other] == connections[other]
                && left[other] == connections[other]
        }),
{
}

/// A client that leaves twice is told once.
pub proof fn law_disconnect_is_told_once(
    connections: Map<u64, Seq<char>>,
    namespace: Option<Seq<char>>,
    client_id: u64,
)
    ensures
        ({
            let left = told(connections, namespace, NatsEvent::ClientDisconnected(client_id));
            let again = told(left.0, namespace, NatsEvent::ClientDisconnected(client_id));
            again.1 is NotConnected && again.0 == left.0
        }),
{
}

/// When a client connects, the key that is looked up is its id in digits: it reads back as that very
/// id, so that two clients never share a key. Nothing else is changed by it.
pub proof fn law_lookup_keys_are_the_clients(
    connections: Map<u64, Seq<char>>,
    namespace: Option<Seq<char>>,
    client_id: u64,
    other: u64,
)
    ensures
        ({
            let asked = told(connections, namespace, NatsEvent::ClientConnected(client_id));
            let asked_other = told(connections, namespace, NatsEvent::ClientConnected(other));
            &&& asked.0 == connections
            &&& asked.1 is FindSession
            &&& text::parsed_unsigned(asked.1->FindSession_key, u64::MAX as nat) == Some(client_id as nat)
            &&& forall|i: int|
                0 <= i < asked.1->FindSession_key.len() ==> '0' <= #[trigger] asked.1->FindSession_key[i] <= '9'
            &&& client_id != other ==> asked.1 != asked_other.1
        }),
{
    text::lemma_decimal_is_digits(client_id as nat);
    text::law_decimal_reads_back(client_id as nat, u64::MAX as nat);
    text::law_decimal_reads_back(other as nat, u64::MAX as nat);
}

/// The metrics that are sent are those that the game reported: the same counts and limits, as many
/// rooms, and at every index the same room. They are sent for the deployment that the context names.
pub proof fn law_metrics_sent_are_those_reported(
    context: json::Entries,
    metrics: BevygapDeploymentMetrics,
    sent: DeploymentMetrics,
)
    requires
        is_identified(context),
        sent@ == metrics_of(context, metrics),
    ensures
        edgegap_context::string_at(context, "request_id"@) == Some(sent.request_id@),
        edgegap_context::string_at(context, "public_ip"@) == Some(sent.public_ip@),
        edgegap_context::game_port_in(context) == sent.external_port,
        sent.total_players == metrics.total_players,
        sent.max_players == metrics.max_players,
        sent.max_rooms == metrics.max_rooms,
        sent.rooms@.len() == metrics.rooms@.len(),
        forall|i: int|
            0 <= i < metrics.rooms@.len() ==> {
                &&& (#[trigger] sent.rooms@[i]).key@ == metrics.rooms@[i].key@
                &&& sent.rooms@[i].private == metrics.rooms@[i].private
                &&& sent.rooms@[i].players == metrics.rooms@[i].players
                &&& sent.rooms@[i].max_players == metrics.rooms@[i].max_players
            },
{
    assert(sent@.rooms.len() == sent.rooms@.len());
    assert(protocol::room_views(metrics.rooms@).len() == metrics.rooms@.len());
    assert forall|i: int| 0 <= i < metrics.rooms@.len() implies {
        &&& (#[trigger] sent.rooms@[i]).key@ == metrics.rooms@[i].key@
        &&& sent.rooms@[i].private == metrics.rooms@[i].private
        &&& sent.rooms@[i].players == metrics.rooms@[i].players
        &&& sent.rooms@[i].max_players == metrics.rooms@[i].max_players
    } by {
        assert(sent@.rooms[i] == sent.rooms@[i]@);
        assert(protocol::room_views(metrics.rooms@)[i] == metrics.rooms@[i]@);
    }
}

/// Digests are stored as they were announced, under as many keys, each as it was announced; and the
/// connections stay as they are.
pub proof fn law_digests_are_told_as_announced(
    connections: Map<u64, Seq<char>>,
    namespace: Option<Seq<char>>,
    keys: Vec<String>,
    digest: String,
)
    ensures
        ({
            let told = told(connections, namespace, NatsEvent::CertDigest(keys, digest));
            &&& told.0 == connections
            &&& told.1 is PutDigest
            &&& told.1->digest == digest@
            &&& told.1->keys.len() == keys@.len()
            &&& forall|i: int| 0 <= i < keys@.len() ==> #[trigger] told.1->keys[i] == keys@[i]@
        }),
{
}

/// Metrics are stored as they are, under the key of their deployment; and the connections stay as they
/// are.
pub proof fn law_metrics_are_told_for_their_deployment(
    connections: Map<u64, Seq<char>>,
    namespace: Option<Seq<char>>,
    metrics: DeploymentMetrics,
)
    ensures
        ({
            let told = told(connections, namespace, NatsEvent::DeploymentMetrics(metrics));
            &&& told.0 == connections
            &&& told.1 is PutMetrics
            &&& told.1->metrics == metrics@
            &&& text::split(told.1->PutMetrics_key, '.') == seq![
                "deployment"@,
                nats::sanitized(metrics.request_id@),
            ]
        }),
{
    nats::law_keys_are_two_tokens(metrics.request_id@);
}

/// A context is published in full, to `gameserver.contexts`, behind the namespace and a dot where
/// there is one; and the connections stay as they are.
pub proof fn law_contexts_are_published(
    connections: Map<u64, Seq<char>>,
    namespace: Option<Seq<char>>,
    context: ArbitriumContext,
)
    ensures
        ({
            let told = told(connections, namespace, NatsEvent::ArbitriumContext(context));
            &&& told.0 == connections
            &&& told.1 is PublishContext
            &&& told.1->payload == json::serialized(context.entries())
            &&& nats::namespace_of(namespace) is None ==> told.1->subject == "gameserver.contexts"@
            &&& nats::namespace_of(namespace) matches Some(name) ==> told.1->subject == name.push(
                '.',
            ) + "gameserver.contexts"@
        }),
{
    if nats::namespace_of(namespace) is Some {
        nats::law_names_in_a_namespace(namespace, CONTEXTS_SUBJECT_BASE@);
    }
}

/// A client whose session was found is stored under that session, and is known by it from then on;
/// its id reads back from what is stored. A client without a session, or with one that is not text, is
/// not connected by it.
pub proof fn law_found_session_is_kept(
    connections: Map<u64, Seq<char>>,
    client_id: u64,
    found: Seq<u8>,
)
    ensures
        connected(connections, client_id, None) == (connections, NatsActionView::NoSession),
        !valid_utf8(found) ==> connected(connections, client_id, Some(found)) == (
            connections,
            NatsActionView::BadSession,
        ),
        valid_utf8(found) ==> {
            let came = connected(connections, client_id, Some(found));
            &&& came.0.contains_key(client_id)
            &&& came.0[client_id] == decode_utf8(found)
            &&& came.1 is PutConnection
            &&& came.1->PutConnection_session_id == decode_utf8(found)
            &&& text::parsed_unsigned(came.1->client_id, u64::MAX as nat) == Some(
                client_id as nat,
            )
        },
{
    text::law_decimal_reads_back(client_id as nat, u64::MAX as nat);
}

/// What is missing is listed by these names, each exactly where the part is missing, in this order.
pub proof fn law_missing_parts_are_named(parts: PartsView)
    ensures
        ({
            let missing = missing_parts(parts);
            let context = parts.context is None;
            let digest = parts.digest is None;
            &&& context <==> missing.contains("Edgegap context"@)
            &&& digest <==> missing.contains("WebTransport certificate digest"@)
            &&& !parts.has_nats <==> missing.contains("NATS connection"@)
            &&& !parts.has_sender <==> missing.contains("NATS sender"@)
            &&& context ==> missing[0] == "Edgegap context"@
            &&& !context && digest ==> missing[0] == "WebTransport certificate digest"@
            &&& !parts.has_sender ==> missing.last() == "NATS sender"@
            &&& parts.has_sender && !parts.has_nats ==> missing.last() == "NATS connection"@
            &&& missing.no_duplicates()
            &&& forall|i: int|
                0 <= i < missing.len() ==> {
                    ||| #[trigger] missing[i] == "Edgegap context"@
                    ||| missing[i] == "WebTransport certificate digest"@
                    ||| missing[i] == "NATS connection"@
                    ||| missing[i] == "NATS sender"@
                }
        }),
{
    reveal_strlit("Edgegap context");
    reveal_strlit("WebTransport certificate digest");
    reveal_strlit("NATS connection");
    reveal_strlit("NATS sender");
    assert("NATS connection"@[5] == 'c' && "NATS sender"@[5] == 's');
    assert("Edgegap context"@[0] == 'E' && "WebTransport certificate digest"@[0] == 'W'
        && "NATS connection"@[0] == 'N' && "NATS sender"@[0] == 'N');
    let missing = missing_parts(parts);
    let a = if parts.context is None {
        1int
    } else {
        0int
    };
    let b = if parts.digest is None {
        1int
    } else {
        0int
    };
    let c = if !parts.has_nats {
        1int
    } else {
        0int
    };
    if a == 1 {
        assert(missing[0] == "Edgegap context"@);
    }
    if b == 1 {
        assert(missing[a] == "WebTransport certificate digest"@);
    }
    if c == 1 {
        assert(missing[a + b] == "NATS connection"@);
    }
    if !parts.has_sender {
        assert(missing[a + b + c] == "NATS sender"@);
    }
}

/// What is missing is told with a comma and a space between the parts. It is told as a change at
/// first, and then only where it differs from what was told before; and the server that everything is
/// there for is announced with its digest and its context as they are.
pub proof fn law_waiting_and_announcing(state: ReadinessView, parts: PartsView, later: PartsView)
    requires
        !state.published,
    ensures
        ({
            let first = readied(state, parts);
            let second = readied(first.0, later);
            let missing = text::joined(missing_parts(parts), seq![',', ' ']);
            &&& !is_complete(parts) ==> {
                &&& first.1 is Waiting
                &&& first.1->missing == missing
                &&& first.1->changed <==> state.last_missing != Some(missing)
                &&& !first.0.published
                &&& !is_complete(later) ==> (second.1->changed <==> second.1->missing != missing)
            }
            &&& is_complete(parts) ==> {
                &&& first.1 is Publish
                &&& Some(first.1->digest) == parts.digest
                &&& Some(first.1->context) == parts.context
                &&& first.1->keys == nats::lookup_keys(
                    edgegap_context::string_at(parts.context->0, "request_id"@),
                    edgegap_context::string_at(parts.context->0, "public_ip"@)->0,
                    edgegap_context::game_port_in(parts.context->0),
                )
                &&& first.0.published
                &&& second.1 is Done
            }
        }),
{
    reveal_strlit(", ");
    assert(", "@ == seq![',', ' ']);
}

/// What is sent is flushed after every event but two: a session that is not text, and metrics that
/// could not be put into text.
pub proof fn law_what_is_flushed(action: NatsActionView, serialized: bool)
    ensures
        action is BadSession ==> !flushes(action, serialized),
        action is PutMetrics ==> flushes(action, serialized) == serialized,
        !(action is BadSession) && !(action is PutMetrics) ==> flushes(action, serialized),
{
}

/// A context says which deployment it is of exactly where its request id and its public address are
/// strings.
pub proof fn law_deployment_is_identified(context: json::Entries)
    ensures
        is_identified(context) <==> {
            &&& context.contains_key("request_id"@) && context["request_id"@] is Str
            &&& context.contains_key("public_ip"@) && context["public_ip"@] is Str
        },
{
}

} // verus!
