//! The environment that Arbitrium gives to a deployment.
use crate::flags;
use crate::text;
use crate::text_laws;
use vstd::prelude::*;
use vstd::string::*;

verus! {

/// Asks for a local context by its mode.
pub const LOCAL_CONTEXT_MODE_ENV: &'static str = "BEVYGAP_CONTEXT_MODE";

/// Asks for a local context by a flag.
pub const LOCAL_CONTEXT_FLAG_ENV: &'static str = "BEVYGAP_LOCAL_CONTEXT";

/// Why a variable has no value.
#[derive(Debug, Clone, Copy, PartialEq, Eq)]
pub enum VarError {
    /// It is not set.
    NotPresent,
    /// It is set, but not to Unicode.
    NotUnicode,
}

/// What the environment holds: for each variable its value, or why it has none.
#[derive(Debug)]
pub struct ArbitriumVars {
    /// `BEVYGAP_LOCAL_CONTEXT`
    pub local_context_flag: Result<String, VarError>,
    /// `BEVYGAP_CONTEXT_MODE`
    pub local_context_mode: Result<String, VarError>,
    /// `BEVYGAP_LOCAL_GAME_PORT`
    pub local_game_port: Result<String, VarError>,
    /// `PORT`
    pub port: Result<String, VarError>,
    /// `ARBITRIUM_REQUEST_ID`
    pub request_id: Result<String, VarError>,
    /// `ARBITRIUM_DELETE_URL`
    pub delete_url: Result<String, VarError>,
    /// `ARBITRIUM_DELETE_TOKEN`
    pub delete_token: Result<String, VarError>,
    /// `ARBITRIUM_DEPLOYMENT_LOCATION`
    pub deployment_location: Result<String, VarError>,
    /// `ARBITRIUM_CONTEXT_URL`
    pub context_url: Result<String, VarError>,
    /// `ARBITRIUM_CONTEXT_TOKEN`
    pub context_token: Result<String, VarError>,
    /// `ARBITRIUM_PUBLIC_IP`
    pub public_ip: Result<String, VarError>,
    /// `ARBITRIUM_PORTS_MAPPING`
    pub ports_mapping: Result<String, VarError>,
}

/// What a deployment is told of itself.
#[derive(Debug)]
pub struct ArbitriumEnv {
    /// The request id of the deployment. It is unique across all Arbitrium.
    pub request_id: String,
    /// Where to ask for the deployment to be deleted.
    pub delete_url: String,
    /// The token to ask for it with.
    pub delete_token: String,
    /// JSON text about the location of the deployment.
    pub deployment_location: String,
    /// Where to get the context of the deployment.
    pub context_url: String,
    /// The token to get it with.
    pub context_token: String,
    /// The public address of the deployment.
    pub public_ip: String,
    /// JSON text of the ports mapping of the deployment.
    pub ports_mapping: String,
    /// True where the context is made up locally instead of fetched from Edgegap.
    pub local_context: bool,
}

/// An [`ArbitriumEnv`] in contracts.
pub struct ArbitriumEnvView {
    pub request_id: Seq<char>,
    pub delete_url: Seq<char>,
    pub delete_token: Seq<char>,
    pub deployment_location: Seq<char>,
    pub context_url: Seq<char>,
    pub context_token: Seq<char>,
    pub public_ip: Seq<char>,
    pub ports_mapping: Seq<char>,
    pub local_context: bool,
}

impl View for ArbitriumEnv {
    type V = ArbitriumEnvView;

    open spec fn view(&self) -> ArbitriumEnvView {
        ArbitriumEnvView {
            request_id: self.request_id@,
            delete_url: self.delete_url@,
            delete_token: self.delete_token@,
            deployment_location: self.deployment_location@,
            context_url: self.context_url@,
            context_token: self.context_token@,
            public_ip: self.public_ip@,
            ports_mapping: self.ports_mapping@,
            local_context: self.local_context,
        }
    }
}

impl Clone for ArbitriumEnv {
    fn clone(&self) -> (r: Self)
        ensures
            r@ == self@,
    {
        ArbitriumEnv {
            request_id: self.request_id.clone(),
            delete_url: self.delete_url.clone(),
            delete_token: self.delete_token.clone(),
            deployment_location: self.deployment_location.clone(),
            context_url: self.context_url.clone(),
            context_token: self.context_token.clone(),
            public_ip: self.public_ip.clone(),
            ports_mapping: self.ports_mapping.clone(),
            local_context: self.local_context,
        }
    }
}

/// The value of a variable, where it has one.
pub open spec fn value_of(variable: Result<String, VarError>) -> Option<Seq<char>> {
    match variable {
        Ok(value) => Some(value@),
        Err(_) => None,
    }
}

/// The value of a variable, or `default` where it has none.
pub open spec fn value_or(variable: Result<String, VarError>, default: Seq<char>) -> Seq<char> {
    match variable {
        Ok(value) => value@,
        Err(_) => default,
    }
}

/// The flag asks for a local context.
pub open spec fn is_local_flag(variable: Result<String, VarError>) -> bool {
    value_of(variable) matches Some(value) && {
        let w = flags::word(value);
        flags::is_yes(w) || w == "y"@ || flags::is_local(w)
    }
}

/// The mode asks for a local context.
pub open spec fn is_local_mode(variable: Result<String, VarError>) -> bool {
    value_of(variable) matches Some(value) && {
        let w = flags::word(value);
        flags::is_yes(w) || flags::is_local(w)
    }
}

/// The context is to be made up locally.
pub open spec fn is_local(vars: ArbitriumVars) -> bool {
    is_local_flag(vars.local_context_flag) || is_local_mode(vars.local_context_mode)
}

/// The game port of a local deployment.
pub open spec fn local_port(vars: ArbitriumVars) -> Seq<char> {
    value_or(vars.local_game_port, value_or(vars.port, "7777"@))
}

/// The ports mapping that has `port` as the game's port, inside and outside.
pub open spec fn local_ports(port: Seq<char>) -> Seq<char> {
    "{\"game\":{\"name\":\"game\",\"internal\":"@ + port + ",\"external\":"@ + port
        + ",\"protocol\":\"UDP\"}}"@
}

/// What a local deployment is told: what is set, and defaults for the rest.
pub open spec fn local_env(vars: ArbitriumVars) -> ArbitriumEnvView {
    ArbitriumEnvView {
        request_id: value_or(vars.request_id, "local-lightrider"@),
        delete_url: value_or(vars.delete_url, "local-mock://delete/local-lightrider"@),
        delete_token: value_or(vars.delete_token, "local-delete-token"@),
        deployment_location: value_or(
            vars.deployment_location,
            "{\"city\":\"Local\",\"country\":\"Dev\"}"@,
        ),
        context_url: value_or(vars.context_url, "local-mock://context/local-lightrider"@),
        context_token: value_or(vars.context_token, "local-context-token"@),
        public_ip: value_or(vars.public_ip, "127.0.0.1"@),
        ports_mapping: value_or(vars.ports_mapping, local_ports(local_port(vars))),
        local_context: true,
    }
}

/// The variables that a deployment on Edgegap has, in the order in which they are read.
pub open spec fn required(vars: ArbitriumVars) -> Seq<Result<String, VarError>> {
    seq![
        vars.request_id,
        vars.delete_url,
        vars.delete_token,
        vars.deployment_location,
        vars.context_url,
        vars.context_token,
        vars.public_ip,
        vars.ports_mapping,
    ]
}

/// The first of `variables` that has no value, and why.
pub open spec fn first_error(variables: Seq<Result<String, VarError>>) -> Option<VarError>
    decreases variables.len(),
{
    if variables.len() == 0 {
        None
    } else {
        match variables[0] {
            Err(error) => Some(error),
            Ok(_) => first_error(variables.drop_first()),
        }
    }
}

/// What a deployment is told, or why the first variable that it lacks has no value.
pub open spec fn env_of(vars: ArbitriumVars) -> Result<ArbitriumEnvView, VarError> {
    if is_local(vars) {
        Ok(local_env(vars))
    } else {
        match first_error(required(vars)) {
            Some(error) => Err(error),
            None => Ok(
                ArbitriumEnvView {
                    request_id: vars.request_id->Ok_0@,
                    delete_url: vars.delete_url->Ok_0@,
                    delete_token: vars.delete_token->Ok_0@,
                    deployment_location: vars.deployment_location->Ok_0@,
                    context_url: vars.context_url->Ok_0@,
                    context_token: vars.context_token->Ok_0@,
                    public_ip: vars.public_ip->Ok_0@,
                    ports_mapping: vars.ports_mapping->Ok_0@,
                    local_context: false,
                },
            ),
        }
    }
}

/// What came of reading the environment.
pub open spec fn env_result(result: Result<ArbitriumEnv, VarError>) -> Result<
    ArbitriumEnvView,
    VarError,
> {
    match result {
        Ok(env) => Ok(env@),
        Err(error) => Err(error),
    }
}

fn or_default(variable: &Result<String, VarError>, default: &str) -> (r: String)
    ensures
        r@ == value_or(*variable, default@),
{
    match variable {
        Ok(value) => value.clone(),
        Err(_) => default.to_owned(),
    }
}

fn value(variable: &Result<String, VarError>) -> (r: String)
    requires
        variable is Ok,
    ensures
        r@ == variable->Ok_0@,
{
    match variable {
        Ok(value) => value.clone(),
        Err(_) => String::new(),
    }
}

/// Whether the context is to be made up locally.
pub fn local_context_enabled(vars: &ArbitriumVars) -> (r: bool)
    ensures
        r == is_local(*vars),
{
    let flagged = match &vars.local_context_flag {
        Ok(value) => {
            let w = flags::to_word(value.as_str());
            flags::yes_word(w.as_str()) || text::same_text(w.as_str(), "y") || flags::local_word(
                w.as_str(),
            )
        },
        Err(_) => false,
    };
    if flagged {
        return true;
    }
    match &vars.local_context_mode {
        Ok(value) => {
            let w = flags::to_word(value.as_str());
            flags::yes_word(w.as_str()) || flags::local_word(w.as_str())
        },
        Err(_) => false,
    }
}

proof fn lemma_first_error(variables: Seq<Result<String, VarError>>, n: int)
    requires
        0 <= n <= variables.len(),
        forall|i: int| 0 <= i < n ==> (#[trigger] variables[i]) is Ok,
    ensures
        first_error(variables) == first_error(variables.skip(n)),
        n < variables.len() && variables[n] is Err ==> first_error(variables) == Some(
            variables[n]->Err_0,
        ),
        n == variables.len() ==> first_error(variables) is None,
    decreases n,
{
    if n == 0 {
        assert(variables.skip(0) == variables);
    } else {
        let rest = variables.drop_first();
        assert forall|i: int| 0 <= i < n - 1 implies (#[trigger] rest[i]) is Ok by {
            assert(rest[i] == variables[i + 1]);
        }
        assert(variables[0] is Ok);
        lemma_first_error(rest, n - 1);
        assert(rest.skip(n - 1) == variables.skip(n));
    }
}

fn find_error(vars: &ArbitriumVars) -> (r: Option<VarError>)
    ensures
        r == first_error(required(*vars)),
{
    let variables: [&Result<String, VarError>; 8] = [
        &vars.request_id,
        &vars.delete_url,
        &vars.delete_token,
        &vars.deployment_location,
        &vars.context_url,
        &vars.context_token,
        &vars.public_ip,
        &vars.ports_mapping,
    ];
    let ghost all = required(*vars);
    assert(forall|j: int| 0 <= j < 8 ==> *(#[trigger] variables@[j]) == all[j]);
    let mut i: usize = 0;
    while i < 8
        invariant
            i <= 8,
            all == required(*vars),
            forall|j: int| 0 <= j < 8 ==> *(#[trigger] variables@[j]) == all[j],
            forall|j: int| 0 <= j < i ==> (#[trigger] all[j]) is Ok,
        decreases 8 - i,
    {
        assert(*variables@[i as int] == all[i as int]);
        if let Err(error) = variables[i] {
            proof {
                lemma_first_error(all, i as int);
            }
            return Some(*error);
        }
        i += 1;
    }
    proof {
        lemma_first_error(all, 8);
    }
    None
}

impl ArbitriumEnv {
    /// What a deployment is told, or why the first variable that it lacks has no value.
    pub fn from_env(vars: &ArbitriumVars) -> (r: Result<Self, VarError>)
        ensures
            env_result(r) == env_of(*vars),
    {
        if local_context_enabled(vars) {
            return Ok(Self::from_local_context_env(vars));
        }
        if let Some(error) = find_error(vars) {
            return Err(error);
        }
        proof {
            lemma_no_error(required(*vars));
            assert(required(*vars)[0] is Ok && required(*vars)[1] is Ok && required(*vars)[2] is Ok
                && required(*vars)[3] is Ok && required(*vars)[4] is Ok && required(*vars)[5] is Ok
                && required(*vars)[6] is Ok && required(*vars)[7] is Ok);
        }
        Ok(
            ArbitriumEnv {
                request_id: value(&vars.request_id),
                delete_url: value(&vars.delete_url),
                delete_token: value(&vars.delete_token),
                deployment_location: value(&vars.deployment_location),
                context_url: value(&vars.context_url),
                context_token: value(&vars.context_token),
                public_ip: value(&vars.public_ip),
                ports_mapping: value(&vars.ports_mapping),
                local_context: false,
            },
        )
    }

    /// What a local deployment is told: what is set, and defaults for the rest.
    pub fn from_local_context_env(vars: &ArbitriumVars) -> (r: Self)
        ensures
            r@ == local_env(*vars),
    {
        let last_port = or_default(&vars.port, "7777");
        let game_port = or_default(&vars.local_game_port, last_port.as_str());
        let mut ports = "{\"game\":{\"name\":\"game\",\"internal\":".to_owned();
        ports.append(game_port.as_str());
        ports.append(",\"external\":");
        ports.append(game_port.as_str());
        ports.append(",\"protocol\":\"UDP\"}}");
        ArbitriumEnv {
            request_id: or_default(&vars.request_id, "local-lightrider"),
            delete_url: or_default(&vars.delete_url, "local-mock://delete/local-lightrider"),
            delete_token: or_default(&vars.delete_token, "local-delete-token"),
            deployment_location: or_default(
                &vars.deployment_location,
                "{\"city\":\"Local\",\"country\":\"Dev\"}",
            ),
            context_url: or_default(&vars.context_url, "local-mock://context/local-lightrider"),
            context_token: or_default(&vars.context_token, "local-context-token"),
            public_ip: or_default(&vars.public_ip, "127.0.0.1"),
            ports_mapping: or_default(&vars.ports_mapping, ports.as_str()),
            local_context: true,
        }
    }

    /// The request id and the security number at the end of the context URL, where the last two of
    /// its parts between slashes are such.
    pub fn context_parts(&self) -> (r: Option<(String, i32)>)
        ensures
            match parts_of(self.context_url@) {
                Some(parts) => r matches Some((request_id, number)) && request_id@ == parts.0
                    && number == parts.1,
                None => r is None,
            },
    {
        let parts = text::split_on(self.context_url.as_str(), '/');
        let ghost all = text::texts(parts@);
        let n = parts.len();
        if n < 2 {
            return None;
        }
        assert(all[n - 1] == parts@[n - 1]@);
        assert(all[n - 2] == parts@[n - 2]@);
        match text::parse_i32(parts[n - 1].as_str()) {
            Some(number) => Some((parts[n - 2].clone(), number)),
            None => None,
        }
    }
}

/// The last two parts of a URL between slashes, where the last one is a number.
pub open spec fn parts_of(url: Seq<char>) -> Option<(Seq<char>, int)> {
    let parts = text::split(url, '/');
    if parts.len() < 2 {
        None
    } else {
        match text::parsed_i32(parts.last()) {
            Some(number) => Some((parts[parts.len() - 2], number)),
            None => None,
        }
    }
}

// ---------------------------------------------------------------------------
// Laws
// ---------------------------------------------------------------------------

/// A local deployment needs no variable but the one that asks for it.
pub proof fn law_local_needs_nothing(vars: ArbitriumVars)
    requires
        is_local(vars),
    ensures
        env_of(vars) matches Ok(env) && env.local_context,
{
}

/// Outside of a local context, every variable is needed, and what is set is told as it is.
pub proof fn law_remote_needs_everything(vars: ArbitriumVars)
    requires
        !is_local(vars),
    ensures
        env_of(vars) is Ok <==> forall|i: int|
            0 <= i < required(vars).len() ==> (#[trigger] required(vars)[i]) is Ok,
        env_of(vars) matches Ok(env) ==> !env.local_context && value_of(vars.request_id) == Some(
            env.request_id,
        ) && value_of(vars.public_ip) == Some(env.public_ip),
{
    lemma_no_error(required(vars));
    if env_of(vars) is Ok {
        assert(required(vars)[0] is Ok);
        assert(required(vars)[6] is Ok);
    }
}

proof fn lemma_no_error(variables: Seq<Result<String, VarError>>)
    ensures
        first_error(variables) is None <==> forall|i: int|
            0 <= i < variables.len() ==> (#[trigger] variables[i]) is Ok,
    decreases variables.len(),
{
    if variables.len() > 0 {
        let rest = variables.drop_first();
        lemma_no_error(rest);
        if first_error(variables) is None {
            assert forall|i: int| 0 <= i < variables.len() implies (#[trigger] variables[i]) is Ok by {
                if i > 0 {
                    assert(rest[i - 1] == variables[i]);
                }
            }
        } else if variables[0] is Ok {
            let k = choose|k: int| 0 <= k < rest.len() && !((#[trigger] rest[k]) is Ok);
            assert(variables[k + 1] == rest[k]);
        }
    }
}

/// A number as it is written, with a `-` where it is below 0.
pub open spec fn signed(n: i32) -> Seq<char> {
    if n < 0 {
        "-"@ + text::decimal(-n as nat)
    } else {
        text::decimal(n as nat)
    }
}

/// A context URL that ends in a request id and a security number gives both back.
pub proof fn law_context_parts_read_back(
    base: Seq<char>,
    request_id: Seq<char>,
    security_number: i32,
)
    requires
        !request_id.contains('/'),
    ensures
        parts_of(base + "/"@ + request_id + "/"@ + signed(security_number)) == Some(
            (request_id, security_number as int),
        ),
{
    reveal_strlit("/");
    reveal_strlit("-");
    assert("/"@ == seq!['/']);
    let magnitude: nat = if security_number < 0 {
        -security_number as nat
    } else {
        security_number as nat
    };
    let digits = text::decimal(magnitude);
    let number = signed(security_number);
    text::lemma_decimal_is_digits(magnitude);
    text::law_decimal_reads_back(magnitude, 0x8000_0000);
    assert(text::is_digit(digits[0]));
    assert forall|i: int| 0 <= i < number.len() implies number[i] != '/' by {
        if security_number < 0 && i > 0 {
            assert(number[i] == digits[i - 1]);
        } else if security_number >= 0 {
            assert(text::is_digit(digits[i]));
        }
    }
    if security_number < 0 {
        assert(number.drop_first() == digits);
    }
    text::lemma_split_after_separator(base, request_id, '/');
    text::lemma_split_after_separator(base + seq!['/'] + request_id, number, '/');
}

/// A local context is asked for by these words alone, in any case and with or without white space
/// around them; the flag takes `y` too. A variable without a value asks for nothing.
pub proof fn law_local_words(
    variable: Result<String, VarError>,
    before: Seq<char>,
    w: Seq<char>,
    after: Seq<char>,
)
    requires
        text_laws::all_white(before),
        text_laws::all_white(after),
        w.len() > 0 ==> !text::is_white_space(w[0]) && !text::is_white_space(w.last()),
        variable is Ok ==> variable->Ok_0@ == before + w + after,
    ensures
        ({
            let small = text::lowered(w);
            let known = small == "1"@ || small == "true"@ || small == "yes"@ || small == "on"@
                || small == "local"@ || small == "mock"@;
            &&& is_local_mode(variable) <==> variable is Ok && known
            &&& is_local_flag(variable) <==> variable is Ok && (known || small == "y"@)
        }),
{
    flags::law_words(before, w, after);
}

/// The context is local where the flag or the mode asks for that, and only then.
pub proof fn law_flag_or_mode(vars: ArbitriumVars)
    ensures
        is_local(vars) <==> is_local_flag(vars.local_context_flag) || is_local_mode(
            vars.local_context_mode,
        ),
{
}

/// A local deployment is told every variable that has a value as it is, and these defaults for the
/// rest.
pub proof fn law_local_deployment_is_told(vars: ArbitriumVars)
    requires
        is_local(vars),
    ensures
        env_of(vars) is Ok,
        ({
            let env = env_of(vars)->Ok_0;
            &&& env.local_context
            &&& vars.request_id is Ok ==> env.request_id == vars.request_id->Ok_0@
            &&& vars.delete_url is Ok ==> env.delete_url == vars.delete_url->Ok_0@
            &&& vars.delete_token is Ok ==> env.delete_token == vars.delete_token->Ok_0@
            &&& vars.deployment_location is Ok ==> env.deployment_location == vars.deployment_location->Ok_0@
            &&& vars.context_url is Ok ==> env.context_url == vars.context_url->Ok_0@
            &&& vars.context_token is Ok ==> env.context_token == vars.context_token->Ok_0@
            &&& vars.public_ip is Ok ==> env.public_ip == vars.public_ip->Ok_0@
            &&& vars.ports_mapping is Ok ==> env.ports_mapping == vars.ports_mapping->Ok_0@
            &&& vars.request_id is Err ==> env.request_id == "local-lightrider"@
            &&& vars.delete_url is Err ==> env.delete_url == "local-mock://delete/local-lightrider"@
            &&& vars.delete_token is Err ==> env.delete_token == "local-delete-token"@
            &&& vars.deployment_location is Err ==> env.deployment_location == "{\"city\":\"Local\",\"country\":\"Dev\"}"@
            &&& vars.context_url is Err ==> env.context_url == "local-mock://context/local-lightrider"@
            &&& vars.context_token is Err ==> env.context_token == "local-context-token"@
            &&& vars.public_ip is Err ==> env.public_ip == "127.0.0.1"@
        }),
{
}

/// Where a local deployment is told no ports mapping, it has one port, inside and outside: that of the
/// game, where it is set; else the other one, where that is set; and else 7777.
pub proof fn law_local_ports(vars: ArbitriumVars)
    requires
        is_local(vars),
        vars.ports_mapping is Err,
    ensures
        ({
            let mapping = env_of(vars)->Ok_0.ports_mapping;
            let written = |port: Seq<char>|
                "{\"game\":{\"name\":\"game\",\"internal\":"@ + port + ",\"external\":"@ + port
                    + ",\"protocol\":\"UDP\"}}"@;
            &&& vars.local_game_port is Ok ==> mapping == written(vars.local_game_port->Ok_0@)
            &&& vars.local_game_port is Err && vars.port is Ok ==> mapping == written(
                vars.port->Ok_0@,
            )
            &&& vars.local_game_port is Err && vars.port is Err ==> mapping == written("7777"@)
        }),
{
}

/// Any other deployment is told every variable as it is.
pub proof fn law_remote_deployment_is_told(vars: ArbitriumVars)
    requires
        !is_local(vars),
    ensures
        env_of(vars) matches Ok(env) ==> {
                &&& !env.local_context
                &&& vars.request_id is Ok && env.request_id == vars.request_id->Ok_0@
                &&& vars.delete_url is Ok && env.delete_url == vars.delete_url->Ok_0@
                &&& vars.delete_token is Ok && env.delete_token == vars.delete_token->Ok_0@
                &&& vars.deployment_location is Ok && env.deployment_location == vars.deployment_location->Ok_0@
                &&& vars.context_url is Ok && env.context_url == vars.context_url->Ok_0@
                &&& vars.context_token is Ok && env.context_token == vars.context_token->Ok_0@
                &&& vars.public_ip is Ok && env.public_ip == vars.public_ip->Ok_0@
                &&& vars.ports_mapping is Ok && env.ports_mapping == vars.ports_mapping->Ok_0@
            },
{
    lemma_no_error(required(vars));
    if env_of(vars) is Ok {
        let all = required(vars);
        assert(all[0] is Ok && all[1] is Ok && all[2] is Ok && all[3] is Ok && all[4] is Ok
            && all[5] is Ok && all[6] is Ok && all[7] is Ok);
    }
}

/// Where a variable that is needed has no value, the first such variable decides the error.
pub proof fn law_first_missing_variable_decides(vars: ArbitriumVars, n: int)
    requires
        !is_local(vars),
        ({
            let needed = seq![
                vars.request_id,
                vars.delete_url,
                vars.delete_token,
                vars.deployment_location,
                vars.context_url,
                vars.context_token,
                vars.public_ip,
                vars.ports_mapping,
            ];
            &&& 0 <= n < 8
            &&& needed[n] is Err
            &&& forall|i: int| 0 <= i < n ==> (#[trigger] needed[i]) is Ok
        }),
    ensures
        env_of(vars) == Err::<ArbitriumEnvView, VarError>(
            seq![
                vars.request_id,
                vars.delete_url,
                vars.delete_token,
                vars.deployment_location,
                vars.context_url,
                vars.context_token,
                vars.public_ip,
                vars.ports_mapping,
            ][n]->Err_0,
        ),
{
    lemma_first_error(required(vars), n);
}

/// A URL has no such parts where it has no slash, nor where no number stands behind the last one.
pub proof fn law_other_urls_have_no_parts(base: Seq<char>, last: Seq<char>)
    requires
        !last.contains('/'),
    ensures
        parts_of(last) is None,
        text::parsed_i32(last) is None ==> parts_of(base.push('/') + last) is None,
{
    text::law_split_undoes_join(seq![last], '/');
    reveal_with_fuel(text::joined, 2);
    assert(text::joined(seq![last], seq!['/']) == last);
    text::lemma_split_after_separator(base, last, '/');
    assert(base.push('/') + last == base + seq!['/'] + last);
}

} // verus!
