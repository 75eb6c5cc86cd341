use bevygap::protocol::DeploymentMetrics;
use bevygap::protocol::DeploymentRoomMetrics;
use bevygap::protocol::RequestSession;
use bevygap::protocol::RoomSelection;
use bevygap::protocol::SessionRequestFeedback;

fn request(game: &str, version: &str) -> RequestSession {
    RequestSession {
        game: game.to_string(),
        version: version.to_string(),
        client_ip: None,
        room: None,
    }
}

#[test]
fn request_session_defaults_to_auto_room() {
    let request = RequestSession {
        game: "game".to_string(),
        version: "dev".to_string(),
        client_ip: None,
        room: None,
    };
    assert_eq!(request.room_selection(), RoomSelection::Auto);
}

#[test]
fn room_selection_keys_are_stable() {
    assert_eq!(
        RoomSelection::Code("ab-c".to_string())
            .room_key()
            .as_deref(),
        Some("code:AB-C")
    );
    assert_eq!(
        RoomSelection::Id("42".to_string()).room_key().as_deref(),
        Some("id:42")
    );
    assert_eq!(RoomSelection::Auto.room_key(), None);
}

#[test]
fn rooms_are_told_as_they_were_asked_for() {
    let mut request = request("game", "dev");
    request.room = Some(RoomSelection::Code("x".to_string()));
    assert_eq!(
        request.room_selection(),
        RoomSelection::Code("x".to_string())
    );
    request.room = Some(RoomSelection::New);
    assert_eq!(request.room_selection(), RoomSelection::New);
    assert_eq!(RoomSelection::New.room_key(), None);
    assert_eq!(RoomSelection::default(), RoomSelection::Auto);
    request.room = Some(RoomSelection::Id("y".to_string()));
    request.client_ip = Some("1.2.3.4".to_string());
    let copy = request.clone();
    assert_eq!(copy.room_selection(), RoomSelection::Id("y".to_string()));
    assert_eq!(copy.client_ip.as_deref(), Some("1.2.3.4"));
    assert_eq!(copy.game, "game");
    assert_eq!(copy.version, "dev");
}

#[test]
fn room_keys_ignore_case_and_other_characters() {
    let key = |s: &str| RoomSelection::Code(s.to_string()).room_key().unwrap();
    assert_eq!(key(" aB c! "), "code:ABC");
    assert_eq!(key("ABC"), key("abc"));
    assert_eq!(key(""), "code:unknown");
    assert_eq!(key("!?"), "code:unknown");
    assert_eq!(key("unknown"), "code:UNKNOWN");
    assert_eq!(key("\u{e9}a_-9"), "code:A_-9");
    assert_ne!(
        RoomSelection::Code("7".to_string()).room_key(),
        RoomSelection::Id("7".to_string()).room_key()
    );
}

#[test]
fn names_are_checked_in_order() {
    assert_eq!(
        request("my game", "v1_2-3").game_name_and_version(),
        Ok(("my game".to_string(), "v1_2-3".to_string()))
    );
    assert_eq!(
        request("", "").game_name_and_version(),
        Err("Game name invalid".to_string())
    );
    assert_eq!(
        request("game", "v0.0.1").game_name_and_version(),
        Err("Game version invalid".to_string())
    );
    let long = "a".repeat(31);
    assert_eq!(
        request(&long, "a.b").game_name_and_version(),
        Err("Game version invalid".to_string())
    );
    assert_eq!(
        request(&long, &long).game_name_and_version(),
        Err("Game name too long (max 30 chars)".to_string())
    );
    assert_eq!(
        request("a", &long).game_name_and_version(),
        Err("Game version too long (max 30 chars)".to_string())
    );
    let longest = "a".repeat(30);
    assert_eq!(
        request(&longest, &longest).game_name_and_version(),
        Ok((longest.clone(), longest.clone()))
    );
}

#[test]
fn names_match_at_both_ends_and_length_counts_bytes() {
    for bad in ["game!", "!game", "ga\u{e9}me", "a\nb!", "\u{200b}"] {
        assert_eq!(
            request(bad, "v").game_name_and_version(),
            Err("Game name invalid".to_string()),
            "{bad:?}"
        );
    }
    for good in ["a\nb", "a\n", "\t", "\u{85}\u{a0}\u{2003}\u{3000}"] {
        assert_eq!(
            request(good, "v").game_name_and_version(),
            Ok((good.to_string(), "v".to_string())),
            "{good:?}"
        );
    }
    assert_eq!(
        request(&"\u{3000}".repeat(11), "v").game_name_and_version(),
        Err("Game name too long (max 30 chars)".to_string())
    );
    assert!(request(&"\u{3000}".repeat(10), "v")
        .game_name_and_version()
        .is_ok());
}

#[test]
fn names_may_hold_exactly_letters_digits_white_space_and_marks() {
    let spaces = "\u{85}\u{a0}\u{1680}\u{2000}\u{200a}\u{2028}\u{2029}\u{202f}\u{205f}\u{3000}";
    let near = "\u{84}\u{86}\u{9f}\u{a1}\u{180e}\u{1fff}\u{200b}\u{2027}\u{202a}\u{2060}\u{feff}";
    for c in ('\0'..='\u{7f}').chain(spaces.chars()).chain(near.chars()) {
        let ok = request(&c.to_string(), "v").game_name_and_version().is_ok();
        let expected = c.is_ascii_alphanumeric() || c == '_' || c == '-' || c.is_whitespace();
        assert_eq!(ok, expected, "{c:?}");
    }
}

#[test]
fn feedback_is_shown() {
    assert_eq!(
        SessionRequestFeedback::Acknowledged.to_text(),
        "Sending request"
    );
    assert_eq!(
        SessionRequestFeedback::SessionRequestAccepted("id".to_string()).to_text(),
        "Request accepted: id"
    );
    assert_eq!(
        SessionRequestFeedback::ProgressReport("half".to_string()).to_text(),
        "In-progress: half"
    );
    assert_eq!(
        SessionRequestFeedback::SessionReady {
            token: "secret".to_string(),
            ip: "1.2.3.4".to_string(),
            port: 7777,
            cert_digest: "digest".to_string(),
        }
        .to_text(),
        "Session Ready! 1.2.3.4:7777"
    );
    assert_eq!(
        SessionRequestFeedback::Error(409, "full".to_string()).to_text(),
        "Error 409: full"
    );
}

fn room(players: u32, max_players: u32) -> DeploymentRoomMetrics {
    DeploymentRoomMetrics {
        key: "code:A".to_string(),
        private: false,
        players,
        max_players,
    }
}

fn metrics(total_players: u32, max_players: u32, max_rooms: u32, rooms: usize) -> DeploymentMetrics {
    DeploymentMetrics {
        request_id: "r".to_string(),
        public_ip: "1.2.3.4".to_string(),
        external_port: Some(1),
        total_players,
        max_players,
        max_rooms,
        rooms: (0..rooms).map(|_| room(1, 2)).collect(),
    }
}

#[test]
fn rooms_have_capacity_below_their_limit() {
    assert!(room(0, 0).has_player_capacity());
    assert!(!room(1, 0).has_player_capacity());
    assert!(room(3, 4).has_player_capacity());
    assert!(!room(4, 4).has_player_capacity());
}

#[test]
fn deployments_have_capacity_below_both_limits() {
    assert!(metrics(0, 0, 0, 0).has_deployment_player_capacity(0));
    assert!(!metrics(1, 0, 0, 0).has_deployment_player_capacity(100));
    assert!(!metrics(1, 100, 0, 0).has_deployment_player_capacity(0));
    assert!(metrics(4, 10, 0, 0).has_deployment_player_capacity(5));
    assert!(!metrics(5, 10, 0, 0).has_deployment_player_capacity(5));
    assert!(!metrics(10, 10, 0, 0).has_deployment_player_capacity(50));
    assert_eq!(metrics(0, 0, 0, 3).room_count(), 3);
    assert!(metrics(0, 0, 4, 3).has_room_capacity(9));
    assert!(!metrics(0, 0, 3, 3).has_room_capacity(9));
    assert!(!metrics(0, 0, 9, 3).has_room_capacity(3));
    assert!(metrics(0, 0, 0, 0).has_room_capacity(0));
    assert!(!metrics(0, 0, 0, 1).has_room_capacity(0));
    let full = metrics(1, 2, 3, 4);
    assert_eq!(full.clone(), full);
}
