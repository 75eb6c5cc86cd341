//! The context of a deployment: its location, its public address and other metadata.
use crate::arbitrium_env::ArbitriumEnv;
use crate::json;
use crate::json::Json;
use crate::text;
use vstd::prelude::*;
use vstd::string::*;

verus! {

/// The context of a deployment, as the Edgegap API gives it.
#[derive(Debug)]
pub struct ArbitriumContext {
    context: serde_json::Map<String, serde_json::Value>,
}

// ---------------------------------------------------------------------------
// What a context says
// ---------------------------------------------------------------------------

/// The value of `key`, where `value` is an object that has one.
pub open spec fn field(value: Json, key: Seq<char>) -> Option<Json> {
    match value {
        Json::Object(entries) => entry(entries, key),
        _ => None,
    }
}

/// The value of `key`, where there is one.
pub open spec fn entry(entries: json::Entries, key: Seq<char>) -> Option<Json> {
    if entries.contains_key(key) {
        Some(entries[key])
    } else {
        None
    }
}

/// The string that `key` has.
pub open spec fn string_at(entries: json::Entries, key: Seq<char>) -> Option<Seq<char>> {
    match entry(entries, key) {
        Some(Json::Str(string)) => Some(string),
        _ => None,
    }
}

/// Why a key has no string.
#[derive(Debug, Clone, Copy, PartialEq, Eq)]
pub enum FieldError {
    /// The context does not have the key.
    Missing,
    /// The value is not a string.
    NotAString,
}

impl FieldError {
    /// What to stop with, where `key` is needed.
    pub fn message(&self, key: &str) -> (r: String)
        ensures
            r@ == (match *self {
                FieldError::Missing => "Missing "@ + key@ + " key in context"@,
                FieldError::NotAString => key@ + " is not a string"@,
            }),
    {
        match self {
            FieldError::Missing => "Missing ".to_owned().concat(key).concat(" key in context"),
            FieldError::NotAString => key.to_owned().concat(" is not a string"),
        }
    }
}

/// The city and the country, each as its JSON is shown.
pub open spec fn location_in(entries: json::Entries) -> Option<Seq<char>> {
    match entry(entries, "location"@) {
        Some(location) => match (field(location, "city"@), field(location, "country"@)) {
            (Some(city), Some(country)) => Some(json::shown(city) + ", "@ + json::shown(country)),
            _ => None,
        },
        None => None,
    }
}

/// The number of sockets, as far as a `u32` can say.
pub open spec fn sockets_in(entries: json::Entries) -> Option<u32> {
    match entry(entries, "sockets"@) {
        Some(Json::Number(Some(n), _)) => Some((n % 0x1_0000_0000) as u32),
        _ => None,
    }
}

/// The port mapping that counts: that of the game, and else the first.
pub open spec fn port_in(ports: json::Entries) -> Option<Json> {
    if ports.contains_key("game"@) {
        Some(ports["game"@])
    } else if ports.dom() == Set::<Seq<char>>::empty() {
        None
    } else {
        Some(ports[choose|key: Seq<char>| json::is_first_key(ports, key)])
    }
}

/// The external port of a port mapping, where it is one.
pub open spec fn external_of(port: Json) -> Option<u16> {
    match field(port, "external"@) {
        Some(Json::Number(Some(n), _)) => if n <= u16::MAX {
            Some(n as u16)
        } else {
            None
        },
        _ => None,
    }
}

/// The external port of the game, where the context says which.
pub open spec fn game_port_in(entries: json::Entries) -> Option<u16> {
    match entry(entries, "ports"@) {
        Some(Json::Object(ports)) => match port_in(ports) {
            Some(port) => external_of(port),
            None => None,
        },
        _ => None,
    }
}

fn get_field<'a>(value: &'a serde_json::Value, key: &str) -> (r: Option<&'a serde_json::Value>)
    ensures
        match field(json::json_of(*value), key@) {
            Some(found) => r matches Some(v) && json::json_of(*v) == found,
            None => r is None,
        },
{
    match json::as_object(value) {
        Some(object) => json::get(object, key),
        None => None,
    }
}

fn external_port(port: &serde_json::Value) -> (r: Option<u16>)
    ensures
        r == external_of(json::json_of(*port)),
{
    match get_field(port, "external") {
        Some(external) => match json::as_u64(external) {
            Some(n) => {
                if n <= 65535 {
                    Some(n as u16)
                } else {
                    None
                }
            },
            None => None,
        },
        None => None,
    }
}

// ---------------------------------------------------------------------------
// Contexts that are made up
// ---------------------------------------------------------------------------

/// The location of a local deployment: what the text says, where it is an object.
pub open spec fn local_location(text: Seq<char>) -> json::Entries {
    match json::parsed(text) {
        Some(Json::Object(location)) => location,
        _ => json::Entries::empty().insert("city"@, Json::Str("Local"@)).insert(
            "country"@,
            Json::Str("Dev"@),
        ),
    }
}

/// The ports of a local deployment: what the text says, where it is an object.
pub open spec fn local_ports(text: Seq<char>) -> json::Entries {
    match json::parsed(text) {
        Some(Json::Object(ports)) => ports,
        _ => json::Entries::empty(),
    }
}

/// The context of a local deployment with this location and these ports.
pub open spec fn local_context(
    request_id: Seq<char>,
    public_ip: Seq<char>,
    location: json::Entries,
    ports: json::Entries,
) -> json::Entries {
    json::Entries::empty().insert("request_id"@, Json::Str(request_id)).insert(
        "public_ip"@,
        Json::Str(public_ip),
    ).insert("fqdn"@, Json::Str("localhost"@)).insert(
        "sockets"@,
        Json::Number(Some(1), text::decimal(1)),
    ).insert("location"@, Json::Object(location)).insert("ports"@, Json::Object(ports))
}

/// The object that a parsed text is, where it is one.
pub open spec fn object_in(value: Option<serde_json::Value>) -> Option<json::Entries> {
    match value {
        Some(v) => match json::json_of(v) {
            Json::Object(entries) => Some(entries),
            _ => None,
        },
        None => None,
    }
}

fn take_object(value: Option<serde_json::Value>) -> (r: Option<
    serde_json::Map<String, serde_json::Value>,
>)
    ensures
        match object_in(value) {
            Some(entries) => r matches Some(object) && json::object_of(object) == entries,
            None => r is None,
        },
{
    match value {
        Some(v) => json::into_object(v),
        None => None,
    }
}

impl ArbitriumContext {
    /// What the context holds.
    pub closed spec fn entries(&self) -> json::Entries {
        json::object_of(self.context)
    }

    /// The context of a local deployment, from what its location and its ports were read as.
    pub fn from_local_parts(
        request_id: &str,
        public_ip: &str,
        location: Option<serde_json::Value>,
        ports: Option<serde_json::Value>,
    ) -> (r: Self)
        ensures
            r.entries() == local_context(
                request_id@,
                public_ip@,
                match object_in(location) {
                    Some(entries) => entries,
                    None => json::Entries::empty().insert("city"@, Json::Str("Local"@)).insert(
                        "country"@,
                        Json::Str("Dev"@),
                    ),
                },
                match object_in(ports) {
                    Some(entries) => entries,
                    None => json::Entries::empty(),
                },
            ),
    {
        let location_object = match take_object(location) {
            Some(object) => object,
            None => {
                let mut object = json::empty_object();
                json::insert(
                    &mut object,
                    "city".to_owned(),
                    json::string_value("Local".to_owned()),
                );
                json::insert(
                    &mut object,
                    "country".to_owned(),
                    json::string_value("Dev".to_owned()),
                );
                object
            },
        };
        let ports_object = match take_object(ports) {
            Some(object) => object,
            None => json::empty_object(),
        };
        let mut context = json::empty_object();
        json::insert(
            &mut context,
            "request_id".to_owned(),
            json::string_value(request_id.to_owned()),
        );
        json::insert(
            &mut context,
            "public_ip".to_owned(),
            json::string_value(public_ip.to_owned()),
        );
        json::insert(
            &mut context,
            "fqdn".to_owned(),
            json::string_value("localhost".to_owned()),
        );
        json::insert(&mut context, "sockets".to_owned(), json::number_value(1));
        json::insert(&mut context, "location".to_owned(), json::object_value(location_object));
        json::insert(&mut context, "ports".to_owned(), json::object_value(ports_object));
        ArbitriumContext { context }
    }

    /// The context of a local deployment.
    pub fn from_local_env(env: &ArbitriumEnv) -> (r: Self)
        ensures
            r.entries() == local_context(
                env.request_id@,
                env.public_ip@,
                local_location(env.deployment_location@),
                local_ports(env.ports_mapping@),
            ),
    {
        let location = json::parse(env.deployment_location.as_str());
        let ports = json::parse(env.ports_mapping.as_str());
        Self::from_local_parts(env.request_id.as_str(), env.public_ip.as_str(), location, ports)
    }

    /// The context that the Edgegap API answered with, where the answer is an object.
    pub fn from_response(response: serde_json::Value) -> (r: Option<Self>)
        ensures
            match json::json_of(response) {
                Json::Object(entries) => r matches Some(context) && context.entries() == entries,
                _ => r is None,
            },
    {
        match json::into_object(response) {
            Some(context) => Some(ArbitriumContext { context }),
            None => None,
        }
    }

    /// The city and the country, each as its JSON is shown, where the context has both.
    pub fn find_location(&self) -> (r: Option<String>)
        ensures
            text::opt_text(r) == location_in(self.entries()),
    {
        let location = match json::get(&self.context, "location") {
            Some(location) => location,
            None => return None,
        };
        match (get_field(location, "city"), get_field(location, "country")) {
            (Some(city), Some(country)) => {
                let shown_city = json::show(city);
                let shown_country = json::show(country);
                Some(shown_city.concat(", ").concat(shown_country.as_str()))
            },
            _ => None,
        }
    }

    /// The city and the country, each as its JSON is shown.
    pub fn location(&self) -> (r: String)
        requires
            location_in(self.entries()) is Some,
        ensures
            Some(r@) == location_in(self.entries()),
    {
        match self.find_location() {
            Some(location) => location,
            None => String::new(),
        }
    }

    /// The context as JSON text.
    pub fn to_bytes(&self) -> (r: Vec<u8>)
        ensures
            r@ == json::serialized(self.entries()),
    {
        json::to_bytes(&self.context)
    }

    /// The number of sockets, where the context has one.
    pub fn find_sockets(&self) -> (r: Option<u32>)
        ensures
            r == sockets_in(self.entries()),
    {
        match json::get(&self.context, "sockets") {
            Some(sockets) => match json::as_u64(sockets) {
                Some(n) => {
                    assert((n as u32) as u64 == n % 0x1_0000_0000) by (bit_vector);
                    Some(
                        #[verifier::truncate]
                        (n as u32),
                    )
                },
                None => None,
            },
            None => None,
        }
    }

    /// The number of sockets.
    pub fn sockets(&self) -> (r: u32)
        requires
            sockets_in(self.entries()) is Some,
        ensures
            Some(r) == sockets_in(self.entries()),
    {
        match self.find_sockets() {
            Some(sockets) => sockets,
            None => 0,
        }
    }

    /// The string that `key` has, or why it has none.
    pub fn read_string(&self, key: &str) -> (r: Result<String, FieldError>)
        ensures
            match entry(self.entries(), key@) {
                Some(Json::Str(string)) => r matches Ok(found) && found@ == string,
                Some(_) => r == Err::<String, FieldError>(FieldError::NotAString),
                None => r == Err::<String, FieldError>(FieldError::Missing),
            },
    {
        match json::get(&self.context, key) {
            Some(value) => match json::as_str(value) {
                Some(string) => Ok(string.to_owned()),
                None => Err(FieldError::NotAString),
            },
            None => Err(FieldError::Missing),
        }
    }

    /// The string that `key` has, where it has one.
    pub fn find_string(&self, key: &str) -> (r: Option<String>)
        ensures
            text::opt_text(r) == string_at(self.entries(), key@),
    {
        match self.read_string(key) {
            Ok(string) => Some(string),
            Err(_) => None,
        }
    }

    /// The string that `key` has.
    pub fn top_level_string(&self, key: &str) -> (r: String)
        requires
            string_at(self.entries(), key@) is Some,
        ensures
            Some(r@) == string_at(self.entries(), key@),
    {
        match self.find_string(key) {
            Some(string) => string,
            None => String::new(),
        }
    }

    /// The request id of the deployment.
    pub fn request_id(&self) -> (r: String)
        requires
            string_at(self.entries(), "request_id"@) is Some,
        ensures
            Some(r@) == string_at(self.entries(), "request_id"@),
    {
        self.top_level_string("request_id")
    }

    /// The public address of the deployment.
    pub fn public_ip(&self) -> (r: String)
        requires
            string_at(self.entries(), "public_ip"@) is Some,
        ensures
            Some(r@) == string_at(self.entries(), "public_ip"@),
    {
        self.top_level_string("public_ip")
    }

    /// The domain name of the deployment.
    pub fn fqdn(&self) -> (r: String)
        requires
            string_at(self.entries(), "fqdn"@) is Some,
        ensures
            Some(r@) == string_at(self.entries(), "fqdn"@),
    {
        self.top_level_string("fqdn")
    }

    /// The external port of the game, where the context says which.
    pub fn game_external_port(&self) -> (r: Option<u16>)
        ensures
            r == game_port_in(self.entries()),
    {
        let ports = match json::get(&self.context, "ports") {
            Some(value) => match json::as_object(value) {
                Some(ports) => ports,
                None => return None,
            },
            None => return None,
        };
        match json::get(ports, "game") {
            Some(port) => external_port(port),
            None => match json::first_value(ports) {
                Some(port) => {
                    proof {
                        let all = json::object_of(*ports);
                        let first = choose|key: Seq<char>| json::is_first_key(all, key);
                        let key = choose|key: Seq<char>|
                            json::is_first_key(all, key) && json::json_of(*port) == #[trigger] all[key];
                        json::lemma_first_key_is_unique(all, first, key);
                    }
                    external_port(port)
                },
                None => None,
            },
        }
    }
}

/// Where the context of a deployment comes from.
#[derive(Debug)]
pub enum ContextSource {
    /// It is made up locally.
    Local(ArbitriumContext),
    /// It is fetched from this URL, with this token.
    Fetch { url: String, token: String },
}

/// Where the context of a deployment comes from.
pub fn context_source(env: &ArbitriumEnv) -> (r: ContextSource)
    ensures
        if env.local_context {
            r matches ContextSource::Local(context) && context.entries() == local_context(
                env.request_id@,
                env.public_ip@,
                local_location(env.deployment_location@),
                local_ports(env.ports_mapping@),
            )
        } else {
            r matches ContextSource::Fetch { url, token } && url@ == env.context_url@ && token@
                == env.context_token@
        },
{
    if env.local_context {
        ContextSource::Local(ArbitriumContext::from_local_env(env))
    } else {
        ContextSource::Fetch { url: env.context_url.clone(), token: env.context_token.clone() }
    }
}

impl Clone for ArbitriumContext {
    fn clone(&self) -> (r: Self)
        ensures
            r.entries() == self.entries(),
    {
        ArbitriumContext { context: json::copy(&self.context) }
    }
}

// ---------------------------------------------------------------------------
// Laws
// ---------------------------------------------------------------------------

/// The context of a local deployment says what the deployment was told, that it is on this machine,
/// and that it has one socket.
pub proof fn law_local_context_tells_what_it_was_told(
    request_id: Seq<char>,
    public_ip: Seq<char>,
    location: json::Entries,
    ports: json::Entries,
)
    ensures
        ({
            let context = local_context(request_id, public_ip, location, ports);
            &&& string_at(context, "request_id"@) == Some(request_id)
            &&& string_at(context, "public_ip"@) == Some(public_ip)
            &&& string_at(context, "fqdn"@) == Some("localhost"@)
            &&& sockets_in(context) == Some(1u32)
            &&& entry(context, "location"@) == Some(Json::Object(location))
            &&& entry(context, "ports"@) == Some(Json::Object(ports))
        }),
{
    reveal_strlit("request_id");
    reveal_strlit("public_ip");
    reveal_strlit("fqdn");
    reveal_strlit("sockets");
    reveal_strlit("location");
    reveal_strlit("ports");
    assert("request_id"@.len() == 10);
    assert("public_ip"@.len() == 9);
    assert("fqdn"@.len() == 4);
    assert("sockets"@.len() == 7);
    assert("location"@.len() == 8);
    assert("ports"@.len() == 5);
}

/// The game port of a local deployment is that of its ports.
pub proof fn law_local_game_port(
    request_id: Seq<char>,
    public_ip: Seq<char>,
    location: json::Entries,
    ports: json::Entries,
)
    ensures
        game_port_in(local_context(request_id, public_ip, location, ports)) == (match port_in(
            ports,
        ) {
            Some(port) => external_of(port),
            None => None,
        }),
{
    law_local_context_tells_what_it_was_told(request_id, public_ip, location, ports);
}

/// The mapping of the game decides, whatever other mappings there are.
pub proof fn law_game_mapping_decides(ports: json::Entries, game: Json)
    ensures
        port_in(ports.insert("game"@, game)) == Some(game),
{
}

/// A key has a string exactly where its value is one, and it is that string.
pub proof fn law_strings_are_as_they_are(entries: json::Entries, key: Seq<char>, string: Seq<char>)
    ensures
        string_at(entries, key) == Some(string) <==> entries.contains_key(key) && entries[key]
            == Json::Str(string),
        string_at(entries, key) is None <==> !entries.contains_key(key) || !(entries[key] is Str),
{
}

/// A key has an entry exactly where it is there, and it is what is there; a field is an entry of an
/// object, and other values have none.
pub proof fn law_entries_are_as_they_are(
    entries: json::Entries,
    key: Seq<char>,
    other: Json,
)
    requires
        !(other is Object),
    ensures
        entries.contains_key(key) ==> entry(entries, key) == Some(entries[key]),
        !entries.contains_key(key) ==> entry(entries, key) is None,
        field(Json::Object(entries), key) == entry(entries, key),
        field(other, key) is None,
{
}

/// The number of sockets is the number that the context has, as far as a `u32` can say it, and there
/// is none where that is no number.
pub proof fn law_sockets_are_counted(entries: json::Entries, n: u64, shown: Seq<char>)
    ensures
        ({
            let context = entries.insert("sockets"@, Json::Number(Some(n), shown));
            &&& n <= u32::MAX ==> sockets_in(context) == Some(n as u32)
            &&& sockets_in(context) is Some
            &&& (n - sockets_in(context)->0) % 0x1_0000_0000 == 0
            &&& sockets_in(entries.remove("sockets"@)) is None
            &&& sockets_in(entries.insert("sockets"@, Json::Str(shown))) is None
            &&& sockets_in(entries.insert("sockets"@, Json::Number(None, shown))) is None
        }),
{
}

/// A port mapping has the external port that it says, where that is a port number, and else none.
pub proof fn law_external_ports(mapping: json::Entries, n: u64, shown: Seq<char>)
    ensures
        ({
            let port = external_of(
                Json::Object(mapping.insert("external"@, Json::Number(Some(n), shown))),
            );
            &&& n <= 65535 ==> port == Some(n as u16)
            &&& n > 65535 ==> port is None
            &&& external_of(Json::Object(mapping.remove("external"@))) is None
            &&& external_of(Json::Object(mapping.insert("external"@, Json::Str(shown)))) is None
            &&& external_of(Json::Str(shown)) is None
        }),
{
}

/// The game port is the external port of the mapping of the game, where there is one; else of the
/// mapping whose name comes first; and there is none without a mapping.
pub proof fn law_game_port_is_of_its_mapping(
    context: json::Entries,
    ports: json::Entries,
    first: Seq<char>,
)
    requires
        context.contains_key("ports"@),
        context["ports"@] == Json::Object(ports),
    ensures
        ports.contains_key("game"@) ==> game_port_in(context) == external_of(ports["game"@]),
        !ports.contains_key("game"@) && json::is_first_key(ports, first) ==> game_port_in(context)
            == external_of(ports[first]),
        (forall|key: Seq<char>| !#[trigger] ports.contains_key(key)) ==> game_port_in(context)
            is None,
        game_port_in(context.remove("ports"@)) is None,
{
    if json::is_first_key(ports, first) {
        assert(ports.dom().contains(first));
        let chosen = choose|key: Seq<char>| json::is_first_key(ports, key);
        json::lemma_first_key_is_unique(ports, first, chosen);
    }
    if forall|key: Seq<char>| !#[trigger] ports.contains_key(key) {
        assert(ports.dom() == Set::<Seq<char>>::empty());
    }
}

/// A location is shown where it has a city and a country, as the one and the other with a comma and a
/// space between them.
pub proof fn law_location_is_shown(context: json::Entries, location: json::Entries)
    requires
        context.contains_key("location"@),
        context["location"@] == Json::Object(location),
    ensures
        location_in(context) is Some <==> location.contains_key("city"@) && location.contains_key(
            "country"@,
        ),
        location_in(context) matches Some(shown) ==> shown == json::shown(location["city"@]) + seq![
            ',',
            ' ',
        ] + json::shown(location["country"@]),
        location_in(context.remove("location"@)) is None,
{
    reveal_strlit(", ");
    assert(", "@ == seq![',', ' ']);
}

/// A local deployment is where its text says, and has the ports that its text says, wherever the text
/// is a JSON object; else it is in the city `Local` and the country `Dev`, and has no ports.
pub proof fn law_local_texts_are_read(text: Seq<char>)
    ensures
        json::parsed(text) matches Some(Json::Object(object)) ==> local_location(text) == object
            && local_ports(text) == object,
        !(json::parsed(text) matches Some(Json::Object(_))) ==> {
            &&& string_at(local_location(text), "city"@) == Some("Local"@)
            &&& string_at(local_location(text), "country"@) == Some("Dev"@)
            &&& local_location(text).dom() == set!["city"@, "country"@]
            &&& forall|key: Seq<char>| !#[trigger] local_ports(text).contains_key(key)
        },
{
    reveal_strlit("city");
    reveal_strlit("country");
    assert("city"@.len() != "country"@.len());
}

/// The context of a local deployment has nothing but what it was told and what is said of it there.
pub proof fn law_local_context_has_nothing_else(
    request_id: Seq<char>,
    public_ip: Seq<char>,
    location: json::Entries,
    ports: json::Entries,
    key: Seq<char>,
)
    requires
        local_context(request_id, public_ip, location, ports).contains_key(key),
    ensures
        key == "request_id"@ || key == "public_ip"@ || key == "fqdn"@ || key == "sockets"@ || key
            == "location"@ || key == "ports"@,
{
}

} // verus!
