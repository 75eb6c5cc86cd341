use bevygap::arbitrium_env::local_context_enabled;
use bevygap::arbitrium_env::ArbitriumEnv;
use bevygap::arbitrium_env::ArbitriumVars;
use bevygap::arbitrium_env::VarError;
use bevygap::edgegap_context::context_source;
use bevygap::edgegap_context::ArbitriumContext;
use bevygap::edgegap_context::ContextSource;
use bevygap::edgegap_context::FieldError;

fn context_of(json: &str) -> ArbitriumContext {
    ArbitriumContext::from_response(serde_json::from_str(json).unwrap()).unwrap()
}

fn port_of(ports: &str) -> Option<u16> {
    context_of(&format!("{{\"ports\":{ports}}}")).game_external_port()
}

#[test]
fn local_context_contains_expected_endpoint() {
    let env = ArbitriumEnv {
        request_id: "local-lightrider".to_string(),
        delete_url: "local-mock://delete".to_string(),
        delete_token: "token".to_string(),
        deployment_location: r#"{"city":"Local","country":"Dev"}"#.to_string(),
        context_url: "local-mock://context".to_string(),
        context_token: "token".to_string(),
        public_ip: "127.0.0.1".to_string(),
        ports_mapping: r#"{"game":{"internal":7777,"external":30090,"protocol":"UDP"}}"#
            .to_string(),
        local_context: true,
    };

    let context = ArbitriumContext::from_local_env(&env);
    assert_eq!(context.request_id(), "local-lightrider");
    assert_eq!(context.public_ip(), "127.0.0.1");
    assert_eq!(context.game_external_port(), Some(30090));
}

fn unset() -> Result<String, VarError> {
    Err(VarError::NotPresent)
}

fn set(value: &str) -> Result<String, VarError> {
    Ok(value.to_string())
}

fn no_vars() -> ArbitriumVars {
    ArbitriumVars {
        local_context_flag: unset(),
        local_context_mode: unset(),
        local_game_port: unset(),
        port: unset(),
        request_id: unset(),
        delete_url: unset(),
        delete_token: unset(),
        deployment_location: unset(),
        context_url: unset(),
        context_token: unset(),
        public_ip: unset(),
        ports_mapping: unset(),
    }
}

#[test]
fn local_env_needs_only_its_flag_or_mode() {
    for on in ["1", "true", "yes", "y", "on", "local", "mock", " MOCK "] {
        let mut vars = no_vars();
        vars.local_context_flag = set(on);
        assert!(local_context_enabled(&vars), "{on:?}");
    }
    for on in ["1", "true", "yes", "on", "local", "mock", "Local"] {
        let mut vars = no_vars();
        vars.local_context_mode = set(on);
        assert!(local_context_enabled(&vars), "{on:?}");
    }
    let mut vars = no_vars();
    vars.local_context_mode = set("y");
    vars.local_context_flag = set("edgegap");
    assert!(!local_context_enabled(&vars));

    vars.local_context_flag = set("1");
    let env = ArbitriumEnv::from_env(&vars).unwrap();
    assert!(env.local_context);
    assert_eq!(env.request_id, "local-lightrider");
    assert_eq!(env.delete_url, "local-mock://delete/local-lightrider");
    assert_eq!(env.delete_token, "local-delete-token");
    assert_eq!(env.deployment_location, r#"{"city":"Local","country":"Dev"}"#);
    assert_eq!(env.context_url, "local-mock://context/local-lightrider");
    assert_eq!(env.context_token, "local-context-token");
    assert_eq!(env.public_ip, "127.0.0.1");
    assert_eq!(
        env.ports_mapping,
        r#"{"game":{"name":"game","internal":7777,"external":7777,"protocol":"UDP"}}"#
    );
    assert_eq!(format!("{:?}", env.clone()), format!("{env:?}"));
    let context = ArbitriumContext::from_local_env(&env);
    assert_eq!(context.game_external_port(), Some(7777));
}

#[test]
fn local_env_takes_what_is_set() {
    let mut vars = no_vars();
    vars.local_context_flag = set("1");
    vars.port = set("81");
    assert!(ArbitriumEnv::from_env(&vars)
        .unwrap()
        .ports_mapping
        .contains("\"external\":81,"));
    vars.local_game_port = set("82");
    assert!(ArbitriumEnv::from_env(&vars)
        .unwrap()
        .ports_mapping
        .contains("\"internal\":82,\"external\":82,"));
    vars.ports_mapping = set("{}");
    vars.public_ip = set("9.9.9.9");
    vars.request_id = Err(VarError::NotUnicode);
    let env = ArbitriumEnv::from_env(&vars).unwrap();
    assert_eq!(env.ports_mapping, "{}");
    assert_eq!(env.public_ip, "9.9.9.9");
    assert_eq!(env.request_id, "local-lightrider");
}

#[test]
fn remote_env_needs_every_variable() {
    let mut vars = no_vars();
    vars.request_id = set("r");
    vars.delete_url = set("du");
    vars.delete_token = set("dt");
    vars.deployment_location = set("dl");
    vars.context_url = set("cu");
    vars.context_token = set("ct");
    vars.public_ip = set("ip");
    assert_eq!(
        ArbitriumEnv::from_env(&vars).err(),
        Some(VarError::NotPresent)
    );
    vars.ports_mapping = set("pm");
    let env = ArbitriumEnv::from_env(&vars).unwrap();
    assert!(!env.local_context);
    assert_eq!(env.request_id, "r");
    assert_eq!(env.delete_url, "du");
    assert_eq!(env.delete_token, "dt");
    assert_eq!(env.deployment_location, "dl");
    assert_eq!(env.context_url, "cu");
    assert_eq!(env.context_token, "ct");
    assert_eq!(env.public_ip, "ip");
    assert_eq!(env.ports_mapping, "pm");
    vars.delete_token = Err(VarError::NotUnicode);
    vars.public_ip = unset();
    assert_eq!(
        ArbitriumEnv::from_env(&vars).err(),
        Some(VarError::NotUnicode)
    );
}

#[test]
fn context_url_ends_in_request_id_and_security_number() {
    let parts = |url: &str| {
        let mut vars = no_vars();
        vars.local_context_flag = set("1");
        vars.context_url = set(url);
        ArbitriumEnv::from_env(&vars).unwrap().context_parts()
    };
    let some = |id: &str, number: i32| Some((id.to_string(), number));
    assert_eq!(
        parts("https://api.edgegap.com/v1/context/abc/123"),
        some("abc", 123)
    );
    assert_eq!(parts("a/-2147483648"), some("a", i32::MIN));
    assert_eq!(parts("a/+2147483647"), some("a", i32::MAX));
    assert_eq!(parts("a/2147483648"), None);
    assert_eq!(parts("a/-2147483649"), None);
    assert_eq!(parts("/0"), some("", 0));
    assert_eq!(parts("a/1/"), None);
    assert_eq!(parts("123"), None);
    assert_eq!(parts("a/-"), None);
    assert_eq!(parts(""), None);
}

#[test]
fn local_context_makes_up_what_cannot_be_read() {
    let mut vars = no_vars();
    vars.local_context_flag = set("1");
    vars.deployment_location = set("[1]");
    vars.ports_mapping = set("not json");
    let context = ArbitriumContext::from_local_env(&ArbitriumEnv::from_env(&vars).unwrap());
    assert_eq!(context.location(), "\"Local\", \"Dev\"");
    assert_eq!(context.game_external_port(), None);
    assert_eq!(context.fqdn(), "localhost");
    assert_eq!(context.sockets(), 1);
    assert_eq!(
        String::from_utf8(context.to_bytes()).unwrap(),
        concat_text(&[
            r#"{"fqdn":"localhost","location":{"city":"Local","country":"Dev"},"#,
            r#""ports":{},"public_ip":"127.0.0.1","request_id":"local-lightrider","sockets":1}"#
        ])
    );

    vars.deployment_location = set(r#"{"city":"Montreal \"Old\"","country":7}"#);
    let context = ArbitriumContext::from_local_env(&ArbitriumEnv::from_env(&vars).unwrap());
    assert_eq!(context.location(), "\"Montreal \\\"Old\\\"\", 7");
}

fn concat_text(pieces: &[&str]) -> String {
    pieces.concat()
}

#[test]
fn context_is_an_object() {
    for not_an_object in ["null", "[]", "1", "\"x\"", "true"] {
        let value: serde_json::Value = serde_json::from_str(not_an_object).unwrap();
        assert!(ArbitriumContext::from_response(value).is_none());
    }
    let context = context_of(r#"{"a":"x","b":1}"#);
    assert_eq!(context.find_string("a").as_deref(), Some("x"));
    assert_eq!(context.top_level_string("a"), "x");
    assert_eq!(context.find_string("b"), None);
    assert_eq!(context.find_string("c"), None);
    assert_eq!(context.read_string("a"), Ok("x".to_string()));
    assert_eq!(context.read_string("b"), Err(FieldError::NotAString));
    assert_eq!(context.read_string("c"), Err(FieldError::Missing));
    assert_eq!(FieldError::Missing.message("c"), "Missing c key in context");
    assert_eq!(FieldError::NotAString.message("b"), "b is not a string");
    assert_eq!(context.clone().find_string("a").as_deref(), Some("x"));
    assert_eq!(
        String::from_utf8(context.to_bytes()).unwrap(),
        r#"{"a":"x","b":1}"#
    );
}

#[test]
fn location_needs_city_and_country() {
    assert_eq!(context_of("{}").find_location(), None);
    assert_eq!(context_of(r#"{"location":"here"}"#).find_location(), None);
    assert_eq!(
        context_of(r#"{"location":{"city":"x"}}"#).find_location(),
        None
    );
    assert_eq!(
        context_of(r#"{"location":{"country":"y","city":null}}"#).find_location(),
        Some("null, \"y\"".to_string())
    );
}

#[test]
fn sockets_are_a_number() {
    let sockets = |value: &str| context_of(&format!("{{\"sockets\":{value}}}")).find_sockets();
    assert_eq!(sockets("3"), Some(3));
    assert_eq!(sockets("4294967297"), Some(1));
    assert_eq!(sockets("-1"), None);
    assert_eq!(sockets("1.0"), None);
    assert_eq!(sockets("\"1\""), None);
    assert_eq!(context_of("{}").find_sockets(), None);
}

#[test]
fn game_port_is_preferred_to_the_first() {
    assert_eq!(
        port_of(r#"{"a":{"external":1},"game":{"external":2}}"#),
        Some(2)
    );
    assert_eq!(
        port_of(r#"{"z":{"external":1},"b":{"external":2},"ba":{"external":3}}"#),
        Some(2)
    );
    assert_eq!(
        port_of(r#"{"퟿":{"external":1},"":{"external":2}}"#),
        Some(1)
    );
    assert_eq!(port_of("{}"), None);
    assert_eq!(port_of("[]"), None);
    assert_eq!(port_of(r#"{"game":5}"#), None);
    assert_eq!(port_of(r#"{"game":{}}"#), None);
    assert_eq!(port_of(r#"{"game":{"external":"1"}}"#), None);
    assert_eq!(port_of(r#"{"game":{"external":65535}}"#), Some(65535));
    assert_eq!(port_of(r#"{"game":{"external":65536}}"#), None);
    assert_eq!(port_of(r#"{"game":{"external":-1}}"#), None);
    assert_eq!(port_of(r#"{"game":{},"a":{"external":1}}"#), None);
    assert_eq!(context_of("{}").game_external_port(), None);
}

#[test]
fn context_is_made_up_or_fetched() {
    let mut vars = no_vars();
    vars.local_context_flag = set("1");
    vars.context_url = set("https://context");
    vars.context_token = set("t");
    let mut env = ArbitriumEnv::from_env(&vars).unwrap();
    match context_source(&env) {
        ContextSource::Local(context) => assert_eq!(context.request_id(), "local-lightrider"),
        other => panic!("{other:?}"),
    }
    env.local_context = false;
    match context_source(&env) {
        ContextSource::Fetch { url, token } => {
            assert_eq!(url, "https://context");
            assert_eq!(token, "t");
        }
        other => panic!("{other:?}"),
    }
}
