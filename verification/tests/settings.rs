use bevygap::private_key::parse_comma_private_key;
use bevygap::private_key::parse_hex_private_key;
use bevygap::private_key::KeyError;
use bevygap::settings::edgegap_configuration;
use bevygap::settings::version_is_active;
use bevygap::settings::IdentityError;
use bevygap::settings::NetcodeIdentity;
use bevygap::settings::Settings;
use bevygap::settings::MAX_SESSION_CREATION_SECONDS;

fn settings(key: &str, protocol_id: u64) -> Settings {
    Settings {
        app_name: "spacepit_server".to_string(),
        app_version: "v0.0.1".to_string(),
        lightyear_private_key: key.to_string(),
        lightyear_protocol_id: protocol_id,
        session_webhook_url: None,
        mock_edgegap: false,
        mock_public_ip: "127.0.0.1".to_string(),
        mock_external_port: 7777,
        mock_session_id_prefix: "mock-session".to_string(),
        mock_deployment_request_id: "local-lightrider".to_string(),
        mock_ready_delay_ms: 100,
    }
}

fn counting_key() -> [u8; 32] {
    let mut key = [0u8; 32];
    for (i, byte) in key.iter_mut().enumerate() {
        *byte = (i * 8 + 7) as u8;
    }
    key
}

fn comma_text(key: &[u8]) -> String {
    key.iter().map(|b| b.to_string()).collect::<Vec<_>>().join(",")
}

fn hex_text(key: &[u8]) -> String {
    key.iter().map(|b| format!("{b:02x}")).collect()
}

#[test]
fn comma_keys_read_back() {
    let key = counting_key();
    let text = comma_text(&key);
    assert_eq!(parse_comma_private_key(&text), Ok(key));
    assert_eq!(parse_comma_private_key(&format!("[{},]", text.replace(",", ", , "))), Ok(key));
    assert_eq!(settings(&text, 0).parse_private_key(None, None), Ok(key));
    let shown = format!("{key:?}");
    assert!(shown.starts_with("[7, 15, "));
    assert_eq!(parse_comma_private_key(&shown), Ok(key));
    assert_eq!(settings(&shown, 0).parse_private_key(None, None), Ok(key));
}

#[test]
fn settings_are_copied() {
    let mut s = settings("k", 9);
    s.session_webhook_url = Some("https://hook".to_string());
    s.mock_edgegap = true;
    assert_eq!(format!("{:?}", s.clone()), format!("{s:?}"));
}

#[test]
fn comma_keys_are_refused() {
    let mut numbers = vec!["1"; 32];
    numbers[31] = "256";
    assert_eq!(
        parse_comma_private_key(&numbers.join(",")),
        Err(KeyError::Number)
    );
    assert_eq!(parse_comma_private_key("256,"), Err(KeyError::Number));
    assert_eq!(parse_comma_private_key("1,2,3"), Err(KeyError::Count));
    assert_eq!(parse_comma_private_key(","), Err(KeyError::Count));
    assert_eq!(
        parse_comma_private_key(&vec!["1"; 33].join(",")),
        Err(KeyError::Count)
    );
    assert_eq!(
        parse_comma_private_key(&vec!["-1"; 32].join(",")),
        Ok([1u8; 32])
    );
    assert_eq!(KeyError::Number.message(), "Failed to parse number in private key");
    assert_eq!(
        KeyError::Count.message(),
        "Private key must contain exactly 32 numbers"
    );
}

#[test]
fn hex_keys_read_back() {
    let key = counting_key();
    let text = hex_text(&key);
    assert_eq!(parse_hex_private_key(&text), Ok(key));
    assert_eq!(parse_hex_private_key(&text.to_uppercase()), Ok(key));
    assert_eq!(parse_hex_private_key(&format!(" 0x{text}\n")), Ok(key));
    assert_eq!(settings(&text, 0).parse_private_key(None, None), Ok(key));
}

#[test]
fn hex_keys_are_refused() {
    let zeros = "00".repeat(31);
    assert_eq!(parse_hex_private_key(&zeros), Err(KeyError::HexLength));
    assert_eq!(
        parse_hex_private_key(&format!("0x0x{zeros}")),
        Err(KeyError::Hex)
    );
    assert_eq!(
        parse_hex_private_key(&format!("0X{zeros}")),
        Err(KeyError::Hex)
    );
    assert_eq!(parse_hex_private_key(&format!("{zeros}0g")), Err(KeyError::Hex));
    assert_eq!(parse_hex_private_key(&format!("{zeros}-1")), Err(KeyError::Hex));
    assert_eq!(parse_hex_private_key(&format!("{zeros}++")), Err(KeyError::Hex));
    assert_eq!(
        parse_hex_private_key(&format!("{zeros}\u{e9}")),
        Err(KeyError::Hex)
    );
    assert_eq!(
        parse_hex_private_key(&format!("0\u{e9}0{}", "00".repeat(30))),
        Err(KeyError::NotUtf8)
    );
    assert_eq!(
        parse_hex_private_key(&format!("0g{}0\u{e9}0", "00".repeat(29))),
        Err(KeyError::Hex)
    );
    let mut expected = [0u8; 32];
    expected[31] = 15;
    assert_eq!(parse_hex_private_key(&format!("{zeros}+f")), Ok(expected));
    assert_eq!(
        KeyError::HexLength.message(),
        "Hex private key must contain exactly 64 hex characters"
    );
    assert_eq!(KeyError::NotUtf8.message(), "private key is not utf8");
    assert_eq!(KeyError::Hex.message(), "Failed to parse hex private key");
}

#[test]
fn key_comes_from_the_setting_or_the_environment() {
    let ones = hex_text(&[1u8; 32]);
    let twos = hex_text(&[2u8; 32]);
    let threes = hex_text(&[3u8; 32]);
    let set = settings(&ones, 0);
    assert_eq!(set.parse_private_key(Some(&twos), Some(&threes)), Ok([1u8; 32]));
    let blank = settings(" ", 0);
    assert_eq!(blank.parse_private_key(Some(&twos), Some(&threes)), Ok([2u8; 32]));
    assert_eq!(blank.parse_private_key(None, Some(&threes)), Ok([3u8; 32]));
    assert_eq!(blank.parse_private_key(Some(""), Some(&threes)), Ok([0u8; 32]));
    assert_eq!(blank.parse_private_key(None, None), Ok([0u8; 32]));
    assert_eq!(blank.parse_private_key(Some("1,2"), None), Err(KeyError::Count));
}

#[test]
fn protocol_id_comes_from_the_setting_or_the_environment() {
    assert_eq!(settings("", 5).protocol_id(Some("7")), 5);
    assert_eq!(settings("", 5).protocol_id(Some("seven")), 5);
    assert_eq!(settings("", 0).protocol_id(Some(" 7 ")), 7);
    assert_eq!(settings("", 0).protocol_id(Some(" ")), 0);
    assert_eq!(settings("", 0).protocol_id(None), 0);
    assert_eq!(settings("", 0).read_protocol_id(Some("seven")), None);
    assert_eq!(settings("", 0).read_protocol_id(Some("7")), Some(7));
}

#[test]
fn production_identity_is_enforced() {
    let key = counting_key();
    let s = settings("", 0);
    for on in ["1", "true", "yes", "on", " ON "] {
        assert!(s.require_production_netcode(Some(on)), "{on:?}");
    }
    for off in ["", "0", "y", "local"] {
        assert!(!s.require_production_netcode(Some(off)), "{off:?}");
    }
    assert!(!s.require_production_netcode(None));

    assert_eq!(
        s.validate_netcode_identity(key, Some("9"), Some("1")),
        Ok(NetcodeIdentity::Configured(9))
    );
    assert_eq!(
        s.validate_netcode_identity(key, None, Some("1")),
        Err(IdentityError::Development)
    );
    assert_eq!(
        s.validate_netcode_identity([0u8; 32], Some("9"), Some("1")),
        Err(IdentityError::Development)
    );
    assert_eq!(
        s.validate_netcode_identity([0u8; 32], Some("9"), None),
        Ok(NetcodeIdentity::Development)
    );
    assert_eq!(
        s.validate_netcode_identity(key, Some("nine"), None),
        Err(IdentityError::ProtocolId)
    );
    assert_eq!(
        IdentityError::ProtocolId.message(),
        "Failed to parse LIGHTRIDER_PROTOCOL_ID"
    );
    assert_eq!(
        IdentityError::Development.message(),
        "LIGHTRIDER_REQUIRE_PRODUCTION_NETCODE=1 requires nonzero LIGHTRIDER_PROTOCOL_ID and LIGHTRIDER_PRIVATE_KEY"
    );
}

#[test]
fn edgegap_needs_a_key() {
    assert_eq!(edgegap_configuration(None), None);
    let access = edgegap_configuration(Some("secret")).unwrap();
    assert_eq!(access.base_path, "https://api.edgegap.com");
    assert_eq!(access.api_key, "secret");
    assert!(version_is_active(Some(true)));
    assert!(!version_is_active(Some(false)));
    assert!(!version_is_active(None));
    assert_eq!(MAX_SESSION_CREATION_SECONDS, 60);
}
