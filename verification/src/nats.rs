//! Names of the NATS subjects, buckets and streams, and the settings they are created with.
//!
//! What the environment holds comes in as `Option<&str>`: the value of the variable, where it is
//! set and valid Unicode.
use crate::text;
use crate::text_laws;
use vstd::prelude::*;
use vstd::string::*;

verus! {

/// Holds the namespace that subjects, buckets and streams are put under.
pub const NATS_NAMESPACE_ENV: &'static str = "BEVYGAP_NATS_NAMESPACE";

/// Holds the life time of session mappings, in milliseconds.
pub const SESSION_MAPPING_TTL_MS_ENV: &'static str = "BEVYGAP_SESSION_MAPPING_TTL_MS";

/// Holds the life time of unclaimed sessions, in seconds.
pub const UNCLAIMED_SESSION_TTL_SECS_ENV: &'static str = "BEVYGAP_UNCLAIMED_SESSION_TTL_SECS";

/// Holds the life time of active connections, in seconds.
pub const ACTIVE_CONNECTION_TTL_SECS_ENV: &'static str = "BEVYGAP_ACTIVE_CONNECTION_TTL_SECS";

/// Holds the life time of certificate digests, in seconds.
pub const CERT_DIGEST_TTL_SECS_ENV: &'static str = "BEVYGAP_CERT_DIGEST_TTL_SECS";

/// Holds the life time of deployment metrics, in seconds.
pub const DEPLOYMENT_METRICS_TTL_SECS_ENV: &'static str = "BEVYGAP_DEPLOYMENT_METRICS_TTL_SECS";

/// Subject prefix of the session delete queue, before the namespace.
pub const DELETE_SESSION_SUBJECT_BASE: &'static str = "edgegap_delete_session_q";

/// Stream of the session delete queue, before the namespace.
pub const DELETE_SESSION_STREAM_BASE: &'static str = "DELETE_SESSION_STREAM";

/// Subject prefix of matchmaker requests, before the namespace.
pub const MATCHMAKER_REQUEST_SUBJECT_BASE: &'static str = "matchmaker.request";

// ---------------------------------------------------------------------------
// Tokens
// ---------------------------------------------------------------------------

/// The character that stands for `c` in a token.
pub open spec fn token_of(c: char) -> char {
    if text::is_token_char(c) {
        c
    } else {
        '_'
    }
}

/// `value` as one token: other characters become `_`, and nothing at all becomes `unknown`.
pub open spec fn sanitized(value: Seq<char>) -> Seq<char> {
    if value.len() == 0 {
        "unknown"@
    } else {
        value.map_values(|c: char| token_of(c))
    }
}

/// `s` is one token: not empty, and made of characters that tokens keep.
pub open spec fn is_token(s: Seq<char>) -> bool {
    s.len() > 0 && forall|i: int| 0 <= i < s.len() ==> text::is_token_char(#[trigger] s[i])
}

/// `value` as one token.
pub fn sanitize_kv_token(value: &str) -> (r: String)
    ensures
        r@ == sanitized(value@),
{
    let mut token = String::new();
    for c in it: value.chars()
        invariant
            it.seq() == value@,
            token@ == value@.take(it.index() as int).map_values(|c: char| token_of(c)),
    {
        token.push(if text::token_char(c) {
            c
        } else {
            '_'
        });
    }
    assert(value@.take(value@.len() as int) == value@);
    if token.as_str().is_empty() {
        "unknown".to_owned()
    } else {
        token
    }
}

// ---------------------------------------------------------------------------
// Namespace
// ---------------------------------------------------------------------------

/// The namespace that a setting asks for: its token, except that `unknown` asks for none.
pub open spec fn namespace_of(setting: Option<Seq<char>>) -> Option<Seq<char>> {
    match setting {
        Some(value) => {
            let token = sanitized(text::trimmed(value));
            if token == "unknown"@ {
                None
            } else {
                Some(token)
            }
        },
        None => None,
    }
}

/// `base` behind the namespace and `sep`, or alone where there is no namespace.
pub open spec fn namespaced(setting: Option<Seq<char>>, sep: Seq<char>, base: Seq<char>) -> Seq<
    char,
> {
    match namespace_of(setting) {
        Some(namespace) => namespace + sep + base,
        None => base,
    }
}

/// The name of a bucket.
pub open spec fn bucket_name(setting: Option<Seq<char>>, base: Seq<char>) -> Seq<char> {
    namespaced(setting, "_"@, base)
}

/// The name of a subject.
pub open spec fn subject_name(setting: Option<Seq<char>>, base: Seq<char>) -> Seq<char> {
    namespaced(setting, "."@, base)
}

/// The namespace that `namespace_var` asks for.
pub fn nats_namespace(namespace_var: Option<&str>) -> (r: Option<String>)
    ensures
        text::opt_text(r) == namespace_of(text::opt_str(namespace_var)),
{
    match namespace_var {
        Some(value) => {
            let trimmed_value = text::trim(value);
            let token = sanitize_kv_token(trimmed_value.as_str());
            if text::same_text(token.as_str(), "unknown") {
                None
            } else {
                Some(token)
            }
        },
        None => None,
    }
}

fn with_namespace(namespace_var: Option<&str>, sep: &str, base: &str) -> (r: String)
    ensures
        r@ == namespaced(text::opt_str(namespace_var), sep@, base@),
{
    match nats_namespace(namespace_var) {
        Some(namespace) => {
            let mut name = namespace;
            name.append(sep);
            name.append(base);
            name
        },
        None => base.to_owned(),
    }
}

/// The name of the bucket `base`.
pub fn nats_bucket_name(namespace_var: Option<&str>, base: &str) -> (r: String)
    ensures
        r@ == bucket_name(text::opt_str(namespace_var), base@),
{
    with_namespace(namespace_var, "_", base)
}

/// The name of the stream `base`.
pub fn nats_stream_name(namespace_var: Option<&str>, base: &str) -> (r: String)
    ensures
        r@ == bucket_name(text::opt_str(namespace_var), base@),
{
    with_namespace(namespace_var, "_", base)
}

/// The name of the subject `base`.
pub fn nats_subject_name(namespace_var: Option<&str>, base: &str) -> (r: String)
    ensures
        r@ == subject_name(text::opt_str(namespace_var), base@),
{
    with_namespace(namespace_var, ".", base)
}

/// The subject that requests for a game and version are sent to.
pub open spec fn request_subject(
    setting: Option<Seq<char>>,
    game: Seq<char>,
    version: Seq<char>,
) -> Seq<char> {
    subject_name(
        setting,
        MATCHMAKER_REQUEST_SUBJECT_BASE@ + "."@ + sanitized(game) + "."@ + sanitized(version),
    )
}

/// The subject that requests for `game_name` in `game_version` are sent to.
pub fn matchmaker_request_subject(
    namespace_var: Option<&str>,
    game_name: &str,
    game_version: &str,
) -> (r: String)
    ensures
        r@ == request_subject(text::opt_str(namespace_var), game_name@, game_version@),
{
    let mut base = MATCHMAKER_REQUEST_SUBJECT_BASE.to_owned();
    base.append(".");
    let game = sanitize_kv_token(game_name);
    base.append(game.as_str());
    base.append(".");
    let version = sanitize_kv_token(game_version);
    base.append(version.as_str());
    nats_subject_name(namespace_var, base.as_str())
}

// ---------------------------------------------------------------------------
// Keys
// ---------------------------------------------------------------------------

/// The key of a deployment.
pub open spec fn deployment_key(request_id: Seq<char>) -> Seq<char> {
    "deployment."@ + sanitized(request_id)
}

/// The key of an endpoint.
pub open spec fn endpoint_key(public_ip: Seq<char>, external_port: u16) -> Seq<char> {
    "endpoint."@ + sanitized(public_ip) + "."@ + text::decimal(external_port as nat)
}

/// The key of a public address.
pub open spec fn public_ip_key(public_ip: Seq<char>) -> Seq<char> {
    "ip."@ + sanitized(public_ip)
}

/// The keys of a certificate digest: the deployment, where its request id is not blank; the
/// endpoint, where its port is known; the address; and the raw address, where it is not yet there.
pub open spec fn lookup_keys(
    request_id: Option<Seq<char>>,
    public_ip: Seq<char>,
    external_port: Option<u16>,
) -> Seq<Seq<char>> {
    let deployment = match request_id {
        Some(id) => if text::is_blank(id) {
            Seq::<Seq<char>>::empty()
        } else {
            seq![deployment_key(id)]
        },
        None => Seq::<Seq<char>>::empty(),
    };
    let endpoint = match external_port {
        Some(port) => deployment.push(endpoint_key(public_ip, port)),
        None => deployment,
    };
    let address = endpoint.push(public_ip_key(public_ip));
    if address.contains(public_ip) {
        address
    } else {
        address.push(public_ip)
    }
}

/// The certificate digest key of the deployment `request_id`.
pub fn cert_digest_deployment_key(request_id: &str) -> (r: String)
    ensures
        r@ == deployment_key(request_id@),
{
    let token = sanitize_kv_token(request_id);
    "deployment.".to_owned().concat(token.as_str())
}

/// The certificate digest key of the endpoint `public_ip` and `external_port`.
pub fn cert_digest_endpoint_key(public_ip: &str, external_port: u16) -> (r: String)
    ensures
        r@ == endpoint_key(public_ip@, external_port),
{
    let token = sanitize_kv_token(public_ip);
    let port = text::decimal_string(external_port as u64);
    "endpoint.".to_owned().concat(token.as_str()).concat(".").concat(port.as_str())
}

/// The certificate digest key of the address `public_ip`.
pub fn cert_digest_public_ip_key(public_ip: &str) -> (r: String)
    ensures
        r@ == public_ip_key(public_ip@),
{
    let token = sanitize_kv_token(public_ip);
    "ip.".to_owned().concat(token.as_str())
}

/// The key that the metrics of the deployment `request_id` are stored under.
pub fn deployment_metrics_key(request_id: &str) -> (r: String)
    ensures
        r@ == deployment_key(request_id@),
{
    let token = sanitize_kv_token(request_id);
    "deployment.".to_owned().concat(token.as_str())
}

fn holds_text(keys: &Vec<String>, text: &str) -> (r: bool)
    ensures
        r == text::texts(keys@).contains(text@),
{
    let mut i: usize = 0;
    while i < keys.len()
        invariant
            i <= keys@.len(),
            forall|j: int| 0 <= j < i ==> text::texts(keys@)[j] != text@,
        decreases keys@.len() - i,
    {
        if text::same_text(keys[i].as_str(), text) {
            assert(text::texts(keys@)[i as int] == text@);
            return true;
        }
        i += 1;
    }
    false
}

/// Ordered keys used to publish and resolve WebTransport certificate digests.
///
/// The deployment request id is preferred because it is globally unique. The endpoint is the
/// practical fallback for local and mock flows, and where a deployment id is not available yet.
/// The raw public address comes last, for servers that know no other key.
pub fn cert_digest_lookup_keys(
    request_id: Option<&str>,
    public_ip: &str,
    external_port: Option<u16>,
) -> (r: Vec<String>)
    ensures
        text::texts(r@) == lookup_keys(text::opt_str(request_id), public_ip@, external_port),
{
    let mut keys: Vec<String> = Vec::new();
    assert(text::texts(keys@) == Seq::<Seq<char>>::empty());
    if let Some(id) = request_id {
        if !text::blank(id) {
            let key = cert_digest_deployment_key(id);
            text::push_text(&mut keys, key);
        }
    }
    if let Some(port) = external_port {
        let key = cert_digest_endpoint_key(public_ip, port);
        text::push_text(&mut keys, key);
    }
    let key = cert_digest_public_ip_key(public_ip);
    text::push_text(&mut keys, key);
    if !holds_text(&keys, public_ip) {
        text::push_text(&mut keys, public_ip.to_owned());
    }
    keys
}

// ---------------------------------------------------------------------------
// Laws
// ---------------------------------------------------------------------------

/// Whatever is sanitized is one token: it holds no dot, no wildcard and no white space.
pub proof fn law_sanitized_is_token(value: Seq<char>)
    ensures
        is_token(sanitized(value)),
{
    reveal_strlit("unknown");
}

/// A token is sanitized already, and sanitizing twice changes nothing.
pub proof fn law_tokens_are_kept(value: Seq<char>)
    ensures
        is_token(value) ==> sanitized(value) == value,
        sanitized(sanitized(value)) == sanitized(value),
{
    law_sanitized_is_token(value);
    let token = sanitized(value);
    assert(sanitized(token) == token);
    if is_token(value) {
        assert(sanitized(value) == value);
    }
}

/// Without a namespace, names are as they are.
pub proof fn law_names_without_namespace(setting: Option<Seq<char>>, base: Seq<char>)
    requires
        namespace_of(setting) is None,
    ensures
        bucket_name(setting, base) == base,
        subject_name(setting, base) == base,
{
}

/// A namespace is one token, and a blank setting asks for none.
pub proof fn law_namespace_is_token(setting: Option<Seq<char>>)
    ensures
        namespace_of(setting) matches Some(namespace) ==> is_token(namespace),
        setting matches Some(value) ==> (text::trimmed(value).len() == 0 ==> namespace_of(setting)
            is None),
{
    if let Some(value) = setting {
        law_sanitized_is_token(text::trimmed(value));
    }
}

proof fn lemma_suffix(prefix: Seq<char>, a: Seq<char>, b: Seq<char>)
    requires
        prefix + a == prefix + b,
    ensures
        a == b,
{
    assert((prefix + a).skip(prefix.len() as int) == a);
    assert((prefix + b).skip(prefix.len() as int) == b);
}

/// Within one namespace, different names stay different.
pub proof fn law_names_are_injective(setting: Option<Seq<char>>, a: Seq<char>, b: Seq<char>)
    requires
        bucket_name(setting, a) == bucket_name(setting, b) || subject_name(setting, a)
            == subject_name(setting, b),
    ensures
        a == b,
{
    if let Some(namespace) = namespace_of(setting) {
        if bucket_name(setting, a) == bucket_name(setting, b) {
            lemma_suffix(namespace + "_"@, a, b);
        } else {
            lemma_suffix(namespace + "."@, a, b);
        }
    }
}

proof fn lemma_dot_splits(a: Seq<char>, x: Seq<char>, b: Seq<char>, y: Seq<char>)
    requires
        is_token(a),
        is_token(b),
        a + "."@ + x == b + "."@ + y,
    ensures
        a == b,
        x == y,
{
    reveal_strlit(".");
    let whole = a + "."@ + x;
    if a.len() < b.len() {
        assert(whole[a.len() as int] == '.');
        assert(whole[a.len() as int] == b[a.len() as int]);
    } else if b.len() < a.len() {
        assert(whole[b.len() as int] == '.');
        assert(whole[b.len() as int] == a[b.len() as int]);
    }
    assert(whole.take(a.len() as int) == a);
    assert(whole.take(b.len() as int) == b);
    assert(whole.skip(a.len() as int + 1) == x);
    assert(whole.skip(b.len() as int + 1) == y);
}

/// Two namespaces never share a subject.
pub proof fn law_namespaces_are_apart(
    one: Option<Seq<char>>,
    other: Option<Seq<char>>,
    a: Seq<char>,
    b: Seq<char>,
)
    requires
        namespace_of(one) is Some,
        namespace_of(other) is Some,
        subject_name(one, a) == subject_name(other, b),
    ensures
        namespace_of(one) == namespace_of(other),
        a == b,
{
    law_namespace_is_token(one);
    law_namespace_is_token(other);
    lemma_dot_splits(namespace_of(one)->0, a, namespace_of(other)->0, b);
}

/// Requests for two games or versions share a subject only where they are the same once sanitized.
pub proof fn law_request_subjects_are_apart(
    setting: Option<Seq<char>>,
    game: Seq<char>,
    version: Seq<char>,
    other_game: Seq<char>,
    other_version: Seq<char>,
)
    ensures
        request_subject(setting, game, version) == request_subject(
            setting,
            other_game,
            other_version,
        ) <==> sanitized(game) == sanitized(other_game) && sanitized(version) == sanitized(
            other_version,
        ),
{
    if request_subject(setting, game, version) == request_subject(
        setting,
        other_game,
        other_version,
    ) {
        let base = MATCHMAKER_REQUEST_SUBJECT_BASE@ + "."@;
        let one = base + sanitized(game) + "."@ + sanitized(version);
        let other = base + sanitized(other_game) + "."@ + sanitized(other_version);
        law_names_are_injective(setting, one, other);
        let a = sanitized(game) + "."@ + sanitized(version);
        let b = sanitized(other_game) + "."@ + sanitized(other_version);
        assert(one == base + a);
        assert(other == base + b);
        lemma_suffix(base, a, b);
        law_sanitized_is_token(game);
        law_sanitized_is_token(other_game);
        lemma_dot_splits(
            sanitized(game),
            sanitized(version),
            sanitized(other_game),
            sanitized(other_version),
        );
    }
}

proof fn lemma_keys_start(request_id: Seq<char>, public_ip: Seq<char>, port: u16)
    ensures
        deployment_key(request_id)[0] == 'd',
        endpoint_key(public_ip, port)[0] == 'e',
        public_ip_key(public_ip)[0] == 'i',
        deployment_key(request_id).len() > 0,
        endpoint_key(public_ip, port).len() > 0,
        public_ip_key(public_ip).len() > 0,
{
    reveal_strlit("deployment.");
    reveal_strlit("endpoint.");
    reveal_strlit("ip.");
}

/// No certificate digest key is listed twice.
pub proof fn law_lookup_keys_are_distinct(
    request_id: Option<Seq<char>>,
    public_ip: Seq<char>,
    external_port: Option<u16>,
)
    ensures
        lookup_keys(request_id, public_ip, external_port).no_duplicates(),
{
    let id = match request_id {
        Some(id) => id,
        None => Seq::<char>::empty(),
    };
    let port = match external_port {
        Some(port) => port,
        None => 0,
    };
    lemma_keys_start(id, public_ip, port);
}

/// The deployment comes first, then the endpoint, then the address, and what is listed is known: the
/// deployment where its id is not blank, the endpoint where the port is known, the address, and the
/// raw address.
pub proof fn law_lookup_keys_prefer_the_deployment(
    request_id: Seq<char>,
    public_ip: Seq<char>,
    external_port: u16,
)
    requires
        !text::is_blank(request_id),
    ensures
        ({
            let keys = lookup_keys(Some(request_id), public_ip, Some(external_port));
            &&& keys[0] == deployment_key(request_id)
            &&& keys[1] == endpoint_key(public_ip, external_port)
            &&& keys[2] == public_ip_key(public_ip)
            &&& keys.contains(public_ip)
        }),
{
    let keys = lookup_keys(Some(request_id), public_ip, Some(external_port));
    assert(keys.contains(public_ip)) by {
        if keys.len() == 4 {
            assert(keys[3] == public_ip);
        }
    }
}

/// A server publishes its digest under every key that a matchmaker knows for it, whether or not the
/// matchmaker knows the deployment or the port.
pub proof fn law_lookups_find_what_was_published(
    request_id: Seq<char>,
    public_ip: Seq<char>,
    external_port: u16,
    known_id: bool,
    known_port: bool,
)
    ensures
        ({
            let published = lookup_keys(Some(request_id), public_ip, Some(external_port));
            let looked_up = lookup_keys(
                if known_id {
                    Some(request_id)
                } else {
                    None
                },
                public_ip,
                if known_port {
                    Some(external_port)
                } else {
                    None
                },
            );
            forall|key: Seq<char>| looked_up.contains(key) ==> published.contains(key)
        }),
{
    let published = lookup_keys(Some(request_id), public_ip, Some(external_port));
    let n = published.len() as int;
    let base = if text::is_blank(request_id) {
        0int
    } else {
        1int
    };
    if base == 1 {
        assert(published[0] == deployment_key(request_id));
    }
    assert(published[base] == endpoint_key(public_ip, external_port));
    assert(published[base + 1] == public_ip_key(public_ip));
    assert(published.contains(public_ip)) by {
        if n == base + 3 {
            assert(published[base + 2] == public_ip);
        } else {
            assert(published == published.take(base + 2));
        }
    }
}

/// Two endpoints share a key only where their ports are the same, and their addresses once
/// sanitized.
pub proof fn law_endpoint_keys_are_apart(
    public_ip: Seq<char>,
    port: u16,
    other_ip: Seq<char>,
    other_port: u16,
)
    requires
        endpoint_key(public_ip, port) == endpoint_key(other_ip, other_port),
    ensures
        sanitized(public_ip) == sanitized(other_ip),
        port == other_port,
{
    let a = sanitized(public_ip) + "."@ + text::decimal(port as nat);
    let b = sanitized(other_ip) + "."@ + text::decimal(other_port as nat);
    assert(endpoint_key(public_ip, port) == "endpoint."@ + a);
    assert(endpoint_key(other_ip, other_port) == "endpoint."@ + b);
    lemma_suffix("endpoint."@, a, b);
    law_sanitized_is_token(public_ip);
    law_sanitized_is_token(other_ip);
    lemma_dot_splits(
        sanitized(public_ip),
        text::decimal(port as nat),
        sanitized(other_ip),
        text::decimal(other_port as nat),
    );
    text::law_decimal_is_injective(port as nat, other_port as nat);
}

/// Sanitizing keeps the ASCII letters and digits, `-` and `_`, puts `_` in the place of every other
/// character, and gives `unknown` for the empty text alone.
pub proof fn law_sanitized_character_by_character(value: Seq<char>, i: int)
    requires
        0 <= i < value.len(),
    ensures
        sanitized(value).len() == value.len(),
        ({
            let c = value[i];
            let kept = 'a' <= c <= 'z' || 'A' <= c <= 'Z' || '0' <= c <= '9' || c == '-' || c
                == '_';
            &&& kept ==> sanitized(value)[i] == c
            &&& !kept ==> sanitized(value)[i] == '_'
        }),
        sanitized(Seq::empty()) == "unknown"@,
{
}

/// A setting asks for the namespace that it holds once the white space around it is taken off and
/// the rest is sanitized; it asks for none where it is not set, where it is blank, and where it is
/// `unknown`.
pub proof fn law_namespace_in_a_setting(before: Seq<char>, s: Seq<char>, after: Seq<char>)
    requires
        text_laws::all_white(before),
        text_laws::all_white(after),
        s.len() > 0 ==> !text::is_white_space(s[0]) && !text::is_white_space(s.last()),
    ensures
        namespace_of(None) is None,
        s.len() == 0 || s == "unknown"@ ==> namespace_of(Some(before + s + after)) is None,
        s.len() > 0 && s != "unknown"@ ==> namespace_of(Some(before + s + after)) == Some(
            sanitized(s),
        ),
{
    text_laws::law_trimming_takes_off_white_space(before, s, after);
    reveal_strlit("unknown");
    if s.len() > 0 && sanitized(s) == "unknown"@ {
        assert forall|i: int| 0 <= i < s.len() implies s[i] == "unknown"@[i] by {
            assert(sanitized(s)[i] == token_of(s[i]));
            assert(s.len() == sanitized(s).len());
            assert(i == 0 || i == 1 || i == 2 || i == 3 || i == 4 || i == 5 || i == 6);
        }
        assert(s == "unknown"@);
    }
    if s == "unknown"@ {
        law_tokens_are_kept(s);
    }
}

/// In a namespace, a bucket or stream has the namespace and `_` before its name, and a subject has the
/// namespace and a dot.
pub proof fn law_names_in_a_namespace(setting: Option<Seq<char>>, base: Seq<char>)
    requires
        namespace_of(setting) is Some,
    ensures
        bucket_name(setting, base) == namespace_of(setting)->0.push('_') + base,
        subject_name(setting, base) == namespace_of(setting)->0.push('.') + base,
{
    reveal_strlit("_");
    reveal_strlit(".");
}

pub proof fn lemma_token_has_no_dot(s: Seq<char>)
    requires
        is_token(s),
    ensures
        !s.contains('.'),
{
    if s.contains('.') {
        let i = choose|i: int| 0 <= i < s.len() && s[i] == '.';
        assert(text::is_token_char(s[i]));
    }
}

pub proof fn lemma_two_pieces(a: Seq<char>, b: Seq<char>)
    requires
        !a.contains('.'),
        !b.contains('.'),
    ensures
        text::split(a.push('.') + b, '.') == seq![a, b],
{
    let pieces = seq![a, b];
    assert(pieces.drop_last() == seq![a]);
    assert(seq![a].drop_last() == Seq::<Seq<char>>::empty());
    reveal_with_fuel(text::joined, 3);
    assert(text::joined(pieces, seq!['.']) == a + seq!['.'] + b);
    assert(a + seq!['.'] + b == a.push('.') + b);
    text::law_split_undoes_join(pieces, '.');
}

/// The keys of a deployment and of an address are two tokens with a dot between them: what it is the
/// key of, and the deployment or the address.
pub proof fn law_keys_are_two_tokens(value: Seq<char>)
    ensures
        text::split(deployment_key(value), '.') == seq!["deployment"@, sanitized(value)],
        text::split(public_ip_key(value), '.') == seq!["ip"@, sanitized(value)],
{
    reveal_strlit("deployment.");
    reveal_strlit("deployment");
    reveal_strlit("ip.");
    reveal_strlit("ip");
    law_sanitized_is_token(value);
    lemma_token_has_no_dot(sanitized(value));
    assert("deployment."@ == "deployment"@.push('.'));
    assert("ip."@ == "ip"@.push('.'));
    lemma_two_pieces("deployment"@, sanitized(value));
    lemma_two_pieces("ip"@, sanitized(value));
}

/// The key of an endpoint is three tokens with dots between them: what it is the key of, the address,
/// and the port, which is read back from its notation.
pub proof fn law_endpoint_keys_are_three_tokens(public_ip: Seq<char>, port: u16)
    ensures
        ({
            let pieces = text::split(endpoint_key(public_ip, port), '.');
            &&& pieces.len() == 3
            &&& pieces[0] == "endpoint"@
            &&& pieces[1] == sanitized(public_ip)
            &&& text::parsed_unsigned(pieces[2], u16::MAX as nat) == Some(port as nat)
        }),
{
    reveal_strlit("endpoint.");
    reveal_strlit("endpoint");
    reveal_strlit(".");
    law_sanitized_is_token(public_ip);
    lemma_token_has_no_dot(sanitized(public_ip));
    let shown = text::decimal(port as nat);
    text::lemma_decimal_is_digits(port as nat);
    text::law_decimal_reads_back(port as nat, u16::MAX as nat);
    assert(!shown.contains('.')) by {
        if shown.contains('.') {
            let i = choose|i: int| 0 <= i < shown.len() && shown[i] == '.';
            assert(text::is_digit(shown[i]));
        }
    }
    let start = "endpoint"@.push('.') + sanitized(public_ip);
    assert(endpoint_key(public_ip, port) == start.push('.') + shown);
    lemma_two_pieces("endpoint"@, sanitized(public_ip));
    text::lemma_split_after_separator(start, shown, '.');
    assert(start.push('.') + shown == start + seq!['.'] + shown);
}

/// The keys of a digest are those of the deployment, where its id is not blank, of the endpoint, where
/// the port is known, and of the address, in this order; and behind them the raw address, where it is
/// none of them.
pub proof fn law_lookup_keys_in_order(
    request_id: Option<Seq<char>>,
    public_ip: Seq<char>,
    external_port: Option<u16>,
)
    ensures
        ({
            let keys = lookup_keys(request_id, public_ip, external_port);
            let id = if request_id is Some && !text::is_blank(request_id->0) {
                1int
            } else {
                0int
            };
            let port = if external_port is Some {
                1int
            } else {
                0int
            };
            &&& keys.len() >= id + port + 1
            &&& id == 1 ==> keys[0] == deployment_key(request_id->0)
            &&& port == 1 ==> keys[id] == endpoint_key(public_ip, external_port->0)
            &&& keys[id + port] == public_ip_key(public_ip)
            &&& keys.contains(public_ip)
            &&& keys.len() > id + port + 1 ==> keys.len() == id + port + 2 && keys[id + port + 1]
                == public_ip
        }),
{
    let keys = lookup_keys(request_id, public_ip, external_port);
    assert(keys.contains(public_ip)) by {
        if keys.last() == public_ip {
            assert(keys[keys.len() - 1] == public_ip);
        }
    }
}

/// Requests for a game and version are sent to the subject `matchmaker.request`, with the game and
/// the version behind it, each as one token.
pub proof fn law_request_subject_is_four_tokens(game: Seq<char>, version: Seq<char>)
    ensures
        text::split(request_subject(None, game, version), '.') == seq![
            "matchmaker"@,
            "request"@,
            sanitized(game),
            sanitized(version),
        ],
{
    reveal_strlit("matchmaker.request");
    reveal_strlit("matchmaker");
    reveal_strlit("request");
    reveal_strlit(".");
    law_sanitized_is_token(game);
    law_sanitized_is_token(version);
    lemma_token_has_no_dot(sanitized(game));
    lemma_token_has_no_dot(sanitized(version));
    lemma_two_pieces("matchmaker"@, "request"@);
    let base = "matchmaker"@.push('.') + "request"@;
    assert(base == MATCHMAKER_REQUEST_SUBJECT_BASE@);
    let with_game = base + seq!['.'] + sanitized(game);
    text::lemma_split_after_separator(base, sanitized(game), '.');
    text::lemma_split_after_separator(with_game, sanitized(version), '.');
    assert(request_subject(None, game, version) == with_game + seq!['.'] + sanitized(version));
}

} // verus!
