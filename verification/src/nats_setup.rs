//! How the NATS connection, buckets and streams are set up.
//!
//! Connecting and creating is done elsewhere, with the settings that are put together here.
use crate::flags;
use crate::nats;
use crate::text;
use crate::text_laws;
use vstd::prelude::*;
use vstd::string::*;

verus! {

/// How often a lost connection is tried again.
pub const MAX_RECONNECTS: usize = 10;

// ---------------------------------------------------------------------------
// Buckets
// ---------------------------------------------------------------------------

/// How long an entry lives.
#[derive(Debug, Clone, Copy, PartialEq, Eq)]
pub enum MaxAge {
    Millis(u64),
    Secs(u64),
}

/// The life time in milliseconds that a setting asks for.
pub fn env_duration_ms(value: Option<&str>, default_ms: u64) -> (r: MaxAge)
    ensures
        r == MaxAge::Millis(flags::number_or(text::opt_str(value), default_ms)),
{
    MaxAge::Millis(flags::env_number(value, default_ms))
}

/// The life time in seconds that a setting asks for.
pub fn env_duration_secs(value: Option<&str>, default_secs: u64) -> (r: MaxAge)
    ensures
        r == MaxAge::Secs(flags::number_or(text::opt_str(value), default_secs)),
{
    MaxAge::Secs(flags::env_number(value, default_secs))
}

/// What a bucket is created with. A value size of 0 sets no limit.
#[derive(Debug, PartialEq, Eq)]
pub struct BucketConfig<T> {
    pub bucket: T,
    pub description: T,
    pub max_value_size: i32,
    pub max_age: MaxAge,
}

impl View for BucketConfig<String> {
    type V = BucketConfig<Seq<char>>;

    open spec fn view(&self) -> BucketConfig<Seq<char>> {
        BucketConfig {
            bucket: self.bucket@,
            description: self.description@,
            max_value_size: self.max_value_size,
            max_age: self.max_age,
        }
    }
}

/// A bucket in a namespace.
pub open spec fn bucket(
    namespace: Option<Seq<char>>,
    base: Seq<char>,
    description: Seq<char>,
    max_value_size: i32,
    max_age: MaxAge,
) -> BucketConfig<Seq<char>> {
    BucketConfig {
        bucket: nats::bucket_name(namespace, base),
        description,
        max_value_size,
        max_age,
    }
}

/// The bucket of active connections.
pub open spec fn active_connections(namespace: Option<Seq<char>>, ttl: Option<Seq<char>>) -> BucketConfig<
    Seq<char>,
> {
    bucket(
        namespace,
        "active_connections"@,
        ""@,
        0,
        MaxAge::Secs(flags::number_or(ttl, 86400)),
    )
}

/// The bucket of unclaimed sessions.
pub open spec fn unclaimed_sessions(namespace: Option<Seq<char>>, ttl: Option<Seq<char>>) -> BucketConfig<
    Seq<char>,
> {
    bucket(
        namespace,
        "unclaimed_sessions"@,
        "Any session ids we get from the API are stored here, and if they key age gets too big, we delete the session via the API."@,
        1024,
        MaxAge::Secs(flags::number_or(ttl, 180)),
    )
}

/// The bucket of certificate digests.
pub open spec fn cert_digests(namespace: Option<Seq<char>>, ttl: Option<Seq<char>>) -> BucketConfig<
    Seq<char>,
> {
    bucket(
        namespace,
        "cert_digests"@,
        "Maps server deployment/endpoint keys to self-signed cert digests"@,
        1024,
        MaxAge::Secs(flags::number_or(ttl, 1209600)),
    )
}

/// The bucket of deployment metrics.
pub open spec fn deployment_metrics(namespace: Option<Seq<char>>, ttl: Option<Seq<char>>) -> BucketConfig<
    Seq<char>,
> {
    bucket(
        namespace,
        "deployment_metrics"@,
        "Game-server room and deployment capacity heartbeats used by matchmaker"@,
        16384,
        MaxAge::Secs(flags::number_or(ttl, 30)),
    )
}

/// The bucket of client ids by session.
pub open spec fn sessions_to_clients(namespace: Option<Seq<char>>, ttl: Option<Seq<char>>) -> BucketConfig<
    Seq<char>,
> {
    bucket(
        namespace,
        "sessions_eg2ly"@,
        "Maps Edgegap Session IDs to Lightyear Client IDs"@,
        1024,
        MaxAge::Millis(flags::number_or(ttl, 30000)),
    )
}

/// The bucket of sessions by client id.
pub open spec fn clients_to_sessions(namespace: Option<Seq<char>>, ttl: Option<Seq<char>>) -> BucketConfig<
    Seq<char>,
> {
    bucket(
        namespace,
        "sessions_ly2eg"@,
        "Maps Lightyear Client IDs to Edgegap Session IDs"@,
        1024,
        MaxAge::Millis(flags::number_or(ttl, 30000)),
    )
}

fn make_bucket(
    namespace_var: Option<&str>,
    base: &str,
    description: &str,
    max_value_size: i32,
    max_age: MaxAge,
) -> (r: BucketConfig<String>)
    ensures
        r@ == bucket(text::opt_str(namespace_var), base@, description@, max_value_size, max_age),
{
    BucketConfig {
        bucket: nats::nats_bucket_name(namespace_var, base),
        description: description.to_owned(),
        max_value_size,
        max_age,
    }
}

/// The bucket of active connections: an entry lives for a day, unless `ttl_var` says otherwise.
pub fn kv_active_connections(namespace_var: Option<&str>, ttl_var: Option<&str>) -> (r:
    BucketConfig<String>)
    ensures
        r@ == active_connections(text::opt_str(namespace_var), text::opt_str(ttl_var)),
        r@ == bucket(
            text::opt_str(namespace_var),
            "active_connections"@,
            ""@,
            0,
            MaxAge::Secs(flags::number_or(text::opt_str(ttl_var), 86400)),
        ),
{
    make_bucket(
        namespace_var,
        "active_connections",
        "",
        0,
        env_duration_secs(ttl_var, 86400),
    )
}

/// The bucket of unclaimed sessions: an entry lives for three minutes, unless `ttl_var` says
/// otherwise.
pub fn kv_unclaimed_sessions(namespace_var: Option<&str>, ttl_var: Option<&str>) -> (r:
    BucketConfig<String>)
    ensures
        r@ == unclaimed_sessions(text::opt_str(namespace_var), text::opt_str(ttl_var)),
        r@ == bucket(
            text::opt_str(namespace_var),
            "unclaimed_sessions"@,
            "Any session ids we get from the API are stored here, and if they key age gets too big, we delete the session via the API."@,
            1024,
            MaxAge::Secs(flags::number_or(text::opt_str(ttl_var), 180)),
        ),
{
    make_bucket(
        namespace_var,
        "unclaimed_sessions",
        "Any session ids we get from the API are stored here, and if they key age gets too big, we delete the session via the API.",
        1024,
        env_duration_secs(ttl_var, 180),
    )
}

/// The bucket of certificate digests: an entry lives for two weeks, unless `ttl_var` says
/// otherwise.
pub fn kv_cert_digests(namespace_var: Option<&str>, ttl_var: Option<&str>) -> (r: BucketConfig<
    String,
>)
    ensures
        r@ == cert_digests(text::opt_str(namespace_var), text::opt_str(ttl_var)),
        r@ == bucket(
            text::opt_str(namespace_var),
            "cert_digests"@,
            "Maps server deployment/endpoint keys to self-signed cert digests"@,
            1024,
            MaxAge::Secs(flags::number_or(text::opt_str(ttl_var), 1209600)),
        ),
{
    make_bucket(
        namespace_var,
        "cert_digests",
        "Maps server deployment/endpoint keys to self-signed cert digests",
        1024,
        env_duration_secs(ttl_var, 1209600),
    )
}

/// The bucket of deployment metrics: an entry lives for half a minute, unless `ttl_var` says
/// otherwise.
pub fn kv_deployment_metrics(namespace_var: Option<&str>, ttl_var: Option<&str>) -> (r:
    BucketConfig<String>)
    ensures
        r@ == deployment_metrics(text::opt_str(namespace_var), text::opt_str(ttl_var)),
        r@ == bucket(
            text::opt_str(namespace_var),
            "deployment_metrics"@,
            "Game-server room and deployment capacity heartbeats used by matchmaker"@,
            16384,
            MaxAge::Secs(flags::number_or(text::opt_str(ttl_var), 30)),
        ),
{
    make_bucket(
        namespace_var,
        "deployment_metrics",
        "Game-server room and deployment capacity heartbeats used by matchmaker",
        16384,
        env_duration_secs(ttl_var, 30),
    )
}

/// The bucket from Edgegap session ids to Lightyear client ids: a client has half a minute to
/// connect, unless `ttl_var` says otherwise.
pub fn kv_s2c(namespace_var: Option<&str>, ttl_var: Option<&str>) -> (r: BucketConfig<String>)
    ensures
        r@ == sessions_to_clients(text::opt_str(namespace_var), text::opt_str(ttl_var)),
        r@ == bucket(
            text::opt_str(namespace_var),
            "sessions_eg2ly"@,
            "Maps Edgegap Session IDs to Lightyear Client IDs"@,
            1024,
            MaxAge::Millis(flags::number_or(text::opt_str(ttl_var), 30000)),
        ),
{
    make_bucket(
        namespace_var,
        "sessions_eg2ly",
        "Maps Edgegap Session IDs to Lightyear Client IDs",
        1024,
        env_duration_ms(ttl_var, 30000),
    )
}

/// The bucket from Lightyear client ids to Edgegap session ids, with the same life time.
pub fn kv_c2s(namespace_var: Option<&str>, ttl_var: Option<&str>) -> (r: BucketConfig<String>)
    ensures
        r@ == clients_to_sessions(text::opt_str(namespace_var), text::opt_str(ttl_var)),
        r@ == bucket(
            text::opt_str(namespace_var),
            "sessions_ly2eg"@,
            "Maps Lightyear Client IDs to Edgegap Session IDs"@,
            1024,
            MaxAge::Millis(flags::number_or(text::opt_str(ttl_var), 30000)),
        ),
{
    make_bucket(
        namespace_var,
        "sessions_ly2eg",
        "Maps Lightyear Client IDs to Edgegap Session IDs",
        1024,
        env_duration_ms(ttl_var, 30000),
    )
}

// ---------------------------------------------------------------------------
// The session delete queue
// ---------------------------------------------------------------------------

/// The subject prefix of the session delete queue.
pub open spec fn delete_prefix(namespace: Option<Seq<char>>) -> Seq<char> {
    nats::subject_name(namespace, nats::DELETE_SESSION_SUBJECT_BASE@)
}

/// The subject that the deletion of a session is asked for on.
pub open spec fn delete_subject(prefix: Seq<char>, session_id: Seq<char>) -> Seq<char> {
    prefix + "."@ + nats::sanitized(session_id)
}

/// The subject prefix of the session delete queue.
pub fn delete_session_subject_prefix(namespace_var: Option<&str>) -> (r: String)
    ensures
        r@ == delete_prefix(text::opt_str(namespace_var)),
{
    nats::nats_subject_name(namespace_var, nats::DELETE_SESSION_SUBJECT_BASE)
}

/// When a stream lets go of a message.
#[derive(Debug, Clone, Copy, PartialEq, Eq)]
pub enum Retention {
    /// When a limit is reached.
    Limits,
    /// When everyone who is interested has it.
    Interest,
    /// When the first has it.
    WorkQueue,
}

/// What a stream is created with.
#[derive(Debug, PartialEq, Eq)]
pub struct QueueConfig<T> {
    pub name: T,
    pub retention: Retention,
    /// The subjects that it takes in.
    pub subjects: Vec<T>,
}

/// The session delete queue: it takes in what goes to one token behind the prefix, and hands each
/// message to one worker.
pub fn session_delete_queue(namespace_var: Option<&str>) -> (r: QueueConfig<String>)
    ensures
        r.name@ == nats::bucket_name(
            text::opt_str(namespace_var),
            nats::DELETE_SESSION_STREAM_BASE@,
        ),
        r.retention == Retention::WorkQueue,
        text::texts(r.subjects@) == seq![delete_prefix(text::opt_str(namespace_var)) + ".*"@],
{
    let prefix = delete_session_subject_prefix(namespace_var);
    let subject = prefix.concat(".*");
    let mut subjects: Vec<String> = Vec::new();
    subjects.push(subject);
    assert(text::texts(subjects@) == seq![delete_prefix(text::opt_str(namespace_var)) + ".*"@]);
    QueueConfig {
        name: nats::nats_stream_name(namespace_var, nats::DELETE_SESSION_STREAM_BASE),
        retention: Retention::WorkQueue,
        subjects,
    }
}

/// What is published to have a session deleted: the subject, and the session id.
pub fn session_delete_message(prefix: &str, session_id: String) -> (r: (String, String))
    ensures
        r.0@ == delete_subject(prefix@, session_id@),
        r.1@ == session_id@,
{
    let token = nats::sanitize_kv_token(session_id.as_str());
    let subject = prefix.to_owned().concat(".").concat(token.as_str());
    (subject, session_id)
}

// ---------------------------------------------------------------------------
// The connection
// ---------------------------------------------------------------------------

/// The settings of the connection, where they are set.
#[derive(Debug)]
pub struct ConnectVars {
    /// `NATS_INSECURE`
    pub insecure: Option<String>,
    /// `BEVYGAP_REQUIRE_SECURE_NATS`
    pub require_secure: Option<String>,
    /// `BEVYGAP_ALLOW_DEV_NATS_CREDENTIALS`
    pub allow_dev_credentials: Option<String>,
    /// `NATS_CA`
    pub ca: Option<String>,
    /// `NATS_CA_CONTENTS`
    pub ca_contents: Option<String>,
    /// `NATS_HOST`
    pub host: Option<String>,
    /// `NATS_USER`
    pub user: Option<String>,
    /// `NATS_PASSWORD`
    pub password: Option<String>,
}

/// Where the certificate authority comes from that the server is verified by.
#[derive(Debug, PartialEq, Eq)]
pub enum CaSource<T> {
    /// The server has a trusted certificate.
    Trusted,
    /// The file at this path.
    Path(T),
    /// These contents, once they are written to a temporary file of this name. Where that fails,
    /// it is as if the server had a trusted certificate.
    Contents { file_name: T, contents: T },
}

impl View for CaSource<String> {
    type V = CaSource<Seq<char>>;

    open spec fn view(&self) -> CaSource<Seq<char>> {
        match self {
            CaSource::Trusted => CaSource::Trusted,
            CaSource::Path(path) => CaSource::Path(path@),
            CaSource::Contents { file_name, contents } => CaSource::Contents {
                file_name: file_name@,
                contents: contents@,
            },
        }
    }
}

/// The certificate authority: the path where it is set, else the contents where they are.
pub open spec fn ca_of(vars: ConnectVars, client_name: Seq<char>) -> CaSource<Seq<char>> {
    match (vars.ca, vars.ca_contents) {
        (Some(path), _) => CaSource::Path(path@),
        (None, Some(contents)) => CaSource::Contents {
            file_name: "rootCA-"@ + text::kept(client_name) + ".pem"@,
            contents: contents@,
        },
        (None, None) => CaSource::Trusted,
    }
}

/// The certificate authority that `vars` ask for.
pub fn ca_source(vars: &ConnectVars, nats_client_name: &str) -> (r: CaSource<String>)
    ensures
        r@ == ca_of(*vars, nats_client_name@),
{
    match &vars.ca {
        Some(path) => CaSource::Path(path.clone()),
        None => match &vars.ca_contents {
            Some(contents) => {
                let name = text::keep_token_chars(nats_client_name);
                let file_name = "rootCA-".to_owned().concat(name.as_str()).concat(".pem");
                CaSource::Contents { file_name, contents: contents.clone() }
            },
            None => CaSource::Trusted,
        },
    }
}

/// How to connect.
#[derive(Debug, PartialEq, Eq)]
pub struct ConnectPlan<T> {
    pub name: T,
    pub host: T,
    pub user: T,
    pub password: T,
    pub require_tls: bool,
    pub max_reconnects: usize,
}

impl View for ConnectPlan<String> {
    type V = ConnectPlan<Seq<char>>;

    open spec fn view(&self) -> ConnectPlan<Seq<char>> {
        ConnectPlan {
            name: self.name@,
            host: self.host@,
            user: self.user@,
            password: self.password@,
            require_tls: self.require_tls,
            max_reconnects: self.max_reconnects,
        }
    }
}

/// Why there is no connection.
#[derive(Debug, Clone, Copy, PartialEq, Eq)]
pub enum ConnectRefusal {
    MissingHost,
    MissingUser,
    MissingPassword,
    /// TLS is required, and switched off.
    Insecure,
    /// Proper credentials are required, and those are the ones for development.
    DefaultCredentials,
}

/// What came of planning a connection.
pub open spec fn plan_result(result: Result<ConnectPlan<String>, ConnectRefusal>) -> Result<
    ConnectPlan<Seq<char>>,
    ConnectRefusal,
> {
    match result {
        Ok(plan) => Ok(plan@),
        Err(refusal) => Err(refusal),
    }
}

/// How to connect with the settings `vars`, or why not.
pub open spec fn planned(vars: ConnectVars, client_name: Seq<char>) -> Result<
    ConnectPlan<Seq<char>>,
    ConnectRefusal,
> {
    let insecure = flags::is_flag(text::opt_text(vars.insecure));
    let require_secure = flags::is_flag(text::opt_text(vars.require_secure));
    let allow_dev = flags::is_flag(text::opt_text(vars.allow_dev_credentials));
    match (vars.host, vars.user, vars.password) {
        (None, _, _) => Err(ConnectRefusal::MissingHost),
        (_, None, _) => Err(ConnectRefusal::MissingUser),
        (_, _, None) => Err(ConnectRefusal::MissingPassword),
        (Some(host), Some(user), Some(password)) => if require_secure && insecure {
            Err(ConnectRefusal::Insecure)
        } else if require_secure && !allow_dev && user@ == "lightrider"@ && password@
            == "lightrider"@ {
            Err(ConnectRefusal::DefaultCredentials)
        } else {
            Ok(
                ConnectPlan {
                    name: client_name,
                    host: host@,
                    user: user@,
                    password: password@,
                    require_tls: !insecure,
                    max_reconnects: MAX_RECONNECTS,
                },
            )
        },
    }
}

fn flag(value: &Option<String>) -> (r: bool)
    ensures
        r == flags::is_flag(text::opt_text(*value)),
{
    match value {
        Some(v) => flags::env_flag(Some(v.as_str())),
        None => false,
    }
}

/// How to connect, or why not.
///
/// TLS is assumed unless `NATS_INSECURE` switches it off. `BEVYGAP_REQUIRE_SECURE_NATS` rejects
/// that, and the credentials for development too.
pub fn connect_plan(vars: &ConnectVars, nats_client_name: &str) -> (r: Result<
    ConnectPlan<String>,
    ConnectRefusal,
>)
    ensures
        plan_result(r) == planned(*vars, nats_client_name@),
{
    let insecure = flag(&vars.insecure);
    let require_secure = flag(&vars.require_secure);
    let allow_dev = flag(&vars.allow_dev_credentials);
    let host = match &vars.host {
        Some(host) => host,
        None => return Err(ConnectRefusal::MissingHost),
    };
    let user = match &vars.user {
        Some(user) => user,
        None => return Err(ConnectRefusal::MissingUser),
    };
    let password = match &vars.password {
        Some(password) => password,
        None => return Err(ConnectRefusal::MissingPassword),
    };
    if require_secure && insecure {
        return Err(ConnectRefusal::Insecure);
    }
    if require_secure && !allow_dev && text::same_text(user.as_str(), "lightrider")
        && text::same_text(password.as_str(), "lightrider") {
        return Err(ConnectRefusal::DefaultCredentials);
    }
    Ok(
        ConnectPlan {
            name: nats_client_name.to_owned(),
            host: host.clone(),
            user: user.clone(),
            password: password.clone(),
            require_tls: !insecure,
            max_reconnects: MAX_RECONNECTS,
        },
    )
}

impl ConnectRefusal {
    /// What to stop with.
    pub fn message(&self) -> (r: &'static str)
        ensures
            r@ == (match *self {
                ConnectRefusal::MissingHost => "Missing NATS_HOST env"@,
                ConnectRefusal::MissingUser => "Missing NATS_USER env"@,
                ConnectRefusal::MissingPassword => "Missing NATS_PASSWORD env"@,
                ConnectRefusal::Insecure =>
                    "BEVYGAP_REQUIRE_SECURE_NATS=1 forbids NATS_INSECURE; configure NATS TLS or remove the production secure-NATS requirement"@,
                ConnectRefusal::DefaultCredentials =>
                    "BEVYGAP_REQUIRE_SECURE_NATS=1 forbids default NATS credentials; set strong NATS_USER/NATS_PASSWORD or BEVYGAP_ALLOW_DEV_NATS_CREDENTIALS=1 for local-only testing"@,
            }),
    {
        match self {
            ConnectRefusal::MissingHost => "Missing NATS_HOST env",
            ConnectRefusal::MissingUser => "Missing NATS_USER env",
            ConnectRefusal::MissingPassword => "Missing NATS_PASSWORD env",
            ConnectRefusal::Insecure =>
                "BEVYGAP_REQUIRE_SECURE_NATS=1 forbids NATS_INSECURE; configure NATS TLS or remove the production secure-NATS requirement",
            ConnectRefusal::DefaultCredentials =>
                "BEVYGAP_REQUIRE_SECURE_NATS=1 forbids default NATS credentials; set strong NATS_USER/NATS_PASSWORD or BEVYGAP_ALLOW_DEV_NATS_CREDENTIALS=1 for local-only testing",
        }
    }
}

// ---------------------------------------------------------------------------
// Laws
// ---------------------------------------------------------------------------

/// Where secure NATS is required, a connection is only ever made with TLS, and with the credentials
/// for development only where those are allowed.
pub proof fn law_required_security_is_kept(vars: ConnectVars, client_name: Seq<char>)
    requires
        flags::is_flag(text::opt_text(vars.require_secure)),
    ensures
        planned(vars, client_name) matches Ok(plan) ==> {
            &&& plan.require_tls
            &&& plan.user == "lightrider"@ && plan.password == "lightrider"@ ==> flags::is_flag(
                text::opt_text(vars.allow_dev_credentials),
            )
        },
{
}

/// TLS is used unless it is switched off.
pub proof fn law_tls_is_the_default(vars: ConnectVars, client_name: Seq<char>)
    requires
        !flags::is_flag(text::opt_text(vars.insecure)),
    ensures
        planned(vars, client_name) matches Ok(plan) ==> plan.require_tls,
        vars.host is Some && vars.user is Some && vars.password is Some && !flags::is_flag(
            text::opt_text(vars.require_secure),
        ) ==> planned(vars, client_name) is Ok,
{
}

/// What is published to have a session deleted goes to one token behind the prefix, so the delete
/// queue takes it in.
pub proof fn law_delete_queue_takes_in_deletions(namespace: Option<Seq<char>>, session_id: Seq<char>)
    ensures
        exists|token: Seq<char>|
            nats::is_token(token) && delete_subject(delete_prefix(namespace), session_id)
                == #[trigger] (delete_prefix(namespace) + "."@ + token),
{
    nats::law_sanitized_is_token(session_id);
    let token = nats::sanitized(session_id);
    assert(delete_subject(delete_prefix(namespace), session_id) == delete_prefix(namespace) + "."@
        + token);
}

/// A connection is planned with the host and the credentials that are set, as they are, and under the
/// name of the client; with TLS exactly where that is not switched off.
pub proof fn law_plan_is_what_is_set(vars: ConnectVars, client_name: Seq<char>)
    ensures
        planned(vars, client_name) matches Ok(plan) ==> {
            &&& plan.name == client_name
            &&& vars.host is Some && plan.host == vars.host->0@
            &&& vars.user is Some && plan.user == vars.user->0@
            &&& vars.password is Some && plan.password == vars.password->0@
            &&& plan.require_tls <==> !flags::is_flag(text::opt_text(vars.insecure))
            &&& plan.max_reconnects == 10
        },
{
}

/// Why there is no connection: a setting is missing, the first that is; or TLS is required and
/// switched off; or the user and the password are both the ones for development, where secure NATS is
/// required and they are not allowed. There is one in every other case.
pub proof fn law_connection_is_refused(vars: ConnectVars, client_name: Seq<char>)
    ensures
        ({
            let plan = planned(vars, client_name);
            let set = vars.host is Some && vars.user is Some && vars.password is Some;
            let secure = flags::is_flag(text::opt_text(vars.require_secure));
            let no_tls = secure && flags::is_flag(text::opt_text(vars.insecure));
            let default_login = secure && !flags::is_flag(
                text::opt_text(vars.allow_dev_credentials),
            ) && set && vars.user->0@ == "lightrider"@ && vars.password->0@ == "lightrider"@;
            let refused = |refusal: ConnectRefusal|
                plan == Err::<ConnectPlan<Seq<char>>, ConnectRefusal>(refusal);
            &&& refused(ConnectRefusal::MissingHost) <==> vars.host is None
            &&& refused(ConnectRefusal::MissingUser) <==> vars.host is Some && vars.user is None
            &&& refused(ConnectRefusal::MissingPassword) <==> vars.host is Some && vars.user is Some
                && vars.password is None
            &&& refused(ConnectRefusal::Insecure) <==> set && no_tls
            &&& refused(ConnectRefusal::DefaultCredentials) <==> set && !no_tls && default_login
            &&& plan is Ok <==> set && !no_tls && !default_login
        }),
{
}

/// The server is verified by the file that is set; else by the contents that are set, in a file that
/// is named after the client; else as one with a trusted certificate.
pub proof fn law_certificate_authority_in_use(vars: ConnectVars, client_name: Seq<char>)
    ensures
        ({
            let ca = ca_of(vars, client_name);
            &&& vars.ca is Some ==> ca == CaSource::Path(vars.ca->0@)
            &&& vars.ca is None && vars.ca_contents is Some ==> ca == (CaSource::Contents {
                file_name: "rootCA-"@ + text::kept(client_name) + ".pem"@,
                contents: vars.ca_contents->0@,
            })
            &&& vars.ca is None && vars.ca_contents is None ==> ca is Trusted
        }),
{
}

/// A bucket has the description, the limit and the life time that are asked for, and the name that is
/// asked for, behind the namespace and `_` where there is one.
pub proof fn law_bucket_is_what_is_asked_for(
    namespace: Option<Seq<char>>,
    base: Seq<char>,
    description: Seq<char>,
    max_value_size: i32,
    max_age: MaxAge,
)
    ensures
        ({
            let made = bucket(namespace, base, description, max_value_size, max_age);
            &&& made.description == description
            &&& made.max_value_size == max_value_size
            &&& made.max_age == max_age
            &&& nats::namespace_of(namespace) is None ==> made.bucket == base
            &&& nats::namespace_of(namespace) matches Some(name) ==> made.bucket == name.push('_')
                + base
        }),
{
    if nats::namespace_of(namespace) is Some {
        nats::law_names_in_a_namespace(namespace, base);
    }
}

/// The deletion of a session is asked for behind `edgegap_delete_session_q`, under the session as one
/// token: two sessions share a subject only where they are the same token.
pub proof fn law_deletions_are_by_session(
    namespace: Option<Seq<char>>,
    session_id: Seq<char>,
    other: Seq<char>,
)
    ensures
        nats::namespace_of(namespace) is None ==> text::split(
            delete_subject(delete_prefix(namespace), session_id),
            '.',
        ) == seq!["edgegap_delete_session_q"@, nats::sanitized(session_id)],
        text::split(delete_subject(delete_prefix(namespace), session_id), '.').last()
            == nats::sanitized(session_id),
        delete_subject(delete_prefix(namespace), session_id) == delete_subject(
            delete_prefix(namespace),
            other,
        ) <==> nats::sanitized(session_id) == nats::sanitized(other),
{
    let prefix = delete_prefix(namespace);
    reveal_strlit(".");
    nats::law_sanitized_is_token(session_id);
    nats::law_sanitized_is_token(other);
    nats::lemma_token_has_no_dot(nats::sanitized(session_id));
    nats::lemma_token_has_no_dot(nats::sanitized(other));
    assert("."@ == seq!['.']);
    text::lemma_split_after_separator(prefix, nats::sanitized(session_id), '.');
    text::lemma_split_after_separator(prefix, nats::sanitized(other), '.');
    if nats::namespace_of(namespace) is None {
        reveal_strlit("edgegap_delete_session_q");
        let base = nats::DELETE_SESSION_SUBJECT_BASE@;
        nats::lemma_two_pieces(base, nats::sanitized(session_id));
        assert(base.push('.') + nats::sanitized(session_id) == base + "."@ + nats::sanitized(
            session_id,
        ));
    }
}

/// The entries of a bucket live as long as is set, for every number that is; and else for a day,
/// three minutes, two weeks, half a minute, and half a minute for both mappings.
pub proof fn law_entries_live_as_long_as_is_set(
    namespace: Option<Seq<char>>,
    before: Seq<char>,
    n: u64,
    after: Seq<char>,
)
    requires
        text_laws::all_white(before),
        text_laws::all_white(after),
    ensures
        ({
            let set = Some(before + text::decimal(n as nat) + after);
            &&& active_connections(namespace, set).max_age == MaxAge::Secs(n)
            &&& unclaimed_sessions(namespace, set).max_age == MaxAge::Secs(n)
            &&& cert_digests(namespace, set).max_age == MaxAge::Secs(n)
            &&& deployment_metrics(namespace, set).max_age == MaxAge::Secs(n)
            &&& sessions_to_clients(namespace, set).max_age == MaxAge::Millis(n)
            &&& clients_to_sessions(namespace, set).max_age == MaxAge::Millis(n)
        }),
        active_connections(namespace, None).max_age == MaxAge::Secs(86400),
        unclaimed_sessions(namespace, None).max_age == MaxAge::Secs(180),
        cert_digests(namespace, None).max_age == MaxAge::Secs(1209600),
        deployment_metrics(namespace, None).max_age == MaxAge::Secs(30),
        sessions_to_clients(namespace, None).max_age == MaxAge::Millis(30000),
        clients_to_sessions(namespace, None).max_age == MaxAge::Millis(30000),
{
    flags::law_number_reads_back(before, n, after, 86400);
    flags::law_number_reads_back(before, n, after, 180);
    flags::law_number_reads_back(before, n, after, 1209600);
    flags::law_number_reads_back(before, n, after, 30);
    flags::law_number_reads_back(before, n, after, 30000);
}

/// Each bucket has a name of its own, behind the namespace and `_` where there is one, and the limit
/// on its values.
pub proof fn law_buckets_by_name(namespace: Option<Seq<char>>, ttl: Option<Seq<char>>)
    ensures
        ({
            let under = |base: Seq<char>|
                match nats::namespace_of(namespace) {
                    Some(name) => name.push('_') + base,
                    None => base,
                };
            &&& active_connections(namespace, ttl).bucket == under("active_connections"@)
            &&& unclaimed_sessions(namespace, ttl).bucket == under("unclaimed_sessions"@)
            &&& cert_digests(namespace, ttl).bucket == under("cert_digests"@)
            &&& deployment_metrics(namespace, ttl).bucket == under("deployment_metrics"@)
            &&& sessions_to_clients(namespace, ttl).bucket == under("sessions_eg2ly"@)
            &&& clients_to_sessions(namespace, ttl).bucket == under("sessions_ly2eg"@)
            &&& active_connections(namespace, ttl).max_value_size == 0
            &&& unclaimed_sessions(namespace, ttl).max_value_size == 1024
            &&& cert_digests(namespace, ttl).max_value_size == 1024
            &&& deployment_metrics(namespace, ttl).max_value_size == 16384
            &&& sessions_to_clients(namespace, ttl).max_value_size == 1024
            &&& clients_to_sessions(namespace, ttl).max_value_size == 1024
        }),
{
    if nats::namespace_of(namespace) is Some {
        nats::law_names_in_a_namespace(namespace, "active_connections"@);
        nats::law_names_in_a_namespace(namespace, "unclaimed_sessions"@);
        nats::law_names_in_a_namespace(namespace, "cert_digests"@);
        nats::law_names_in_a_namespace(namespace, "deployment_metrics"@);
        nats::law_names_in_a_namespace(namespace, "sessions_eg2ly"@);
        nats::law_names_in_a_namespace(namespace, "sessions_ly2eg"@);
    }
}

} // verus!
