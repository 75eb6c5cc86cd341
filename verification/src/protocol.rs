//! What clients, the matchmaker and game servers tell each other.
use crate::text;
use vstd::prelude::*;
use vstd::string::*;
use vstd::utf8::*;

verus! {

/// The longest name of a game, and of a version, in bytes.
pub const MAX_NAME_BYTES: usize = 30;

/// What the name of a game, and of a version, has to match.
pub const NAME_PATTERN: &'static str = "^[a-zA-Z0-9\\s_-]+$";

// ---------------------------------------------------------------------------
// Feedback
// ---------------------------------------------------------------------------

/// What a client is told while its session is being made.
#[derive(Debug)]
pub enum SessionRequestFeedback {
    /// The service has begun processing the request.
    Acknowledged,
    /// The session was created under this id, and is not ready yet.
    SessionRequestAccepted(String),
    /// How far the session has come.
    ProgressReport(String),
    /// The session is ready to connect to.
    SessionReady { token: String, ip: String, port: u16, cert_digest: String },
    /// There was an error.
    Error(u16, String),
}

/// The feedback as it is shown.
pub open spec fn shown(feedback: SessionRequestFeedback) -> Seq<char> {
    match feedback {
        SessionRequestFeedback::Acknowledged => "Sending request"@,
        SessionRequestFeedback::SessionRequestAccepted(id) => "Request accepted: "@ + id@,
        SessionRequestFeedback::ProgressReport(message) => "In-progress: "@ + message@,
        SessionRequestFeedback::SessionReady { ip, port, .. } => "Session Ready! "@ + ip@ + ":"@
            + text::decimal(port as nat),
        SessionRequestFeedback::Error(code, message) => "Error "@ + text::decimal(code as nat)
            + ": "@ + message@,
    }
}

impl SessionRequestFeedback {
    /// The feedback as it is shown. The token and the digest are left out.
    pub fn to_text(&self) -> (r: String)
        ensures
            r@ == shown(*self),
            r@ == (match *self {
                SessionRequestFeedback::Acknowledged => "Sending request"@,
                SessionRequestFeedback::SessionRequestAccepted(id) => "Request accepted: "@ + id@,
                SessionRequestFeedback::ProgressReport(message) => "In-progress: "@ + message@,
                SessionRequestFeedback::SessionReady { ip, port, .. } => "Session Ready! "@ + ip@
                    + ":"@ + text::decimal(port as nat),
                SessionRequestFeedback::Error(code, message) => "Error "@ + text::decimal(
                    code as nat,
                ) + ": "@ + message@,
            }),
    {
        match self {
            SessionRequestFeedback::Acknowledged => "Sending request".to_owned(),
            SessionRequestFeedback::SessionRequestAccepted(id) => {
                "Request accepted: ".to_owned().concat(id.as_str())
            },
            SessionRequestFeedback::ProgressReport(message) => {
                "In-progress: ".to_owned().concat(message.as_str())
            },
            SessionRequestFeedback::SessionReady { token: _, ip, port, cert_digest: _ } => {
                let shown = text::decimal_string(*port as u64);
                "Session Ready! ".to_owned().concat(ip.as_str()).concat(":").concat(shown.as_str())
            },
            SessionRequestFeedback::Error(code, message) => {
                let shown = text::decimal_string(*code as u64);
                "Error ".to_owned().concat(shown.as_str()).concat(": ").concat(message.as_str())
            },
        }
    }
}

// ---------------------------------------------------------------------------
// Rooms
// ---------------------------------------------------------------------------

/// The room that a client wants to play in.
#[derive(Debug, PartialEq, Eq)]
pub enum RoomSelection {
    /// Any room.
    Auto,
    /// A new room.
    New,
    /// The room with this code.
    Code(String),
    /// The room with this id.
    Id(String),
}

/// A [`RoomSelection`] in contracts.
pub enum RoomSelectionView {
    Auto,
    New,
    Code(Seq<char>),
    Id(Seq<char>),
}

impl View for RoomSelection {
    type V = RoomSelectionView;

    open spec fn view(&self) -> RoomSelectionView {
        match self {
            RoomSelection::Auto => RoomSelectionView::Auto,
            RoomSelection::New => RoomSelectionView::New,
            RoomSelection::Code(code) => RoomSelectionView::Code(code@),
            RoomSelection::Id(id) => RoomSelectionView::Id(id@),
        }
    }
}

impl Clone for RoomSelection {
    fn clone(&self) -> (r: Self)
        ensures
            r@ == self@,
    {
        match self {
            RoomSelection::Auto => RoomSelection::Auto,
            RoomSelection::New => RoomSelection::New,
            RoomSelection::Code(code) => RoomSelection::Code(code.clone()),
            RoomSelection::Id(id) => RoomSelection::Id(id.clone()),
        }
    }
}

impl Default for RoomSelection {
    fn default() -> (r: Self)
        ensures
            r@ == RoomSelectionView::Auto,
    {
        RoomSelection::Auto
    }
}

/// `value` as the token of a room: the characters that tokens keep, in upper case, and `unknown`
/// where there are none.
pub open spec fn normalized(value: Seq<char>) -> Seq<char> {
    let token = text::kept(text::trimmed(value));
    if token.len() == 0 {
        "unknown"@
    } else {
        text::uppered(token)
    }
}

/// The key of a room that was asked for by code or by id.
pub open spec fn key_of(room: RoomSelectionView) -> Option<Seq<char>> {
    match room {
        RoomSelectionView::Auto | RoomSelectionView::New => None,
        RoomSelectionView::Code(code) => Some("code:"@ + normalized(code)),
        RoomSelectionView::Id(id) => Some("id:"@ + normalized(id)),
    }
}

/// `value` as the token of a room.
pub fn normalize_room_token(value: &str) -> (r: String)
    ensures
        r@ == normalized(value@),
{
    let trimmed = text::trim(value);
    let token = text::keep_token_chars(trimmed.as_str());
    if token.as_str().is_empty() {
        "unknown".to_owned()
    } else {
        text::to_upper(token.as_str())
    }
}

impl RoomSelection {
    /// The key of the room, where one was asked for by code or by id.
    pub fn room_key(&self) -> (r: Option<String>)
        ensures
            text::opt_text(r) == key_of(self@),
    {
        match self {
            RoomSelection::Auto => None,
            RoomSelection::New => None,
            RoomSelection::Code(code) => {
                let token = normalize_room_token(code.as_str());
                Some("code:".to_owned().concat(token.as_str()))
            },
            RoomSelection::Id(id) => {
                let token = normalize_room_token(id.as_str());
                Some("id:".to_owned().concat(token.as_str()))
            },
        }
    }
}

// ---------------------------------------------------------------------------
// Requests
// ---------------------------------------------------------------------------

/// Sent to the matchmaker when a client wants to play.
#[derive(Debug)]
pub struct RequestSession {
    /// The game to play.
    pub game: String,
    /// The version of the game to play.
    pub version: String,
    /// The address to take in place of the client's own.
    pub client_ip: Option<String>,
    /// The room to play in. The matchmaker takes this as a matter of capacity; which room is joined
    /// in the end is for the game server to say.
    pub room: Option<RoomSelection>,
}

/// A character that names may hold: an ASCII letter or digit, white space, `_` or `-`.
pub open spec fn is_name_char(c: char) -> bool {
    text::is_token_char(c) || text::is_white_space(c)
}

/// `name` is not empty, and holds only characters that names may hold.
pub open spec fn is_name(name: Seq<char>) -> bool {
    name.len() > 0 && forall|i: int| 0 <= i < name.len() ==> is_name_char(#[trigger] name[i])
}

/// `name` is longer than names may be.
pub open spec fn is_too_long(name: Seq<char>) -> bool {
    encode_utf8(name).len() > MAX_NAME_BYTES
}

/// The game and version that are asked for, or what is wrong with them.
pub open spec fn checked_names(game: Seq<char>, version: Seq<char>) -> Result<
    (Seq<char>, Seq<char>),
    Seq<char>,
> {
    if !is_name(game) {
        Err("Game name invalid"@)
    } else if !is_name(version) {
        Err("Game version invalid"@)
    } else if is_too_long(game) {
        Err("Game name too long (max 30 chars)"@)
    } else if is_too_long(version) {
        Err("Game version too long (max 30 chars)"@)
    } else {
        Ok((game, version))
    }
}

/// What came of checking the names.
pub open spec fn names_result(result: Result<(String, String), String>) -> Result<
    (Seq<char>, Seq<char>),
    Seq<char>,
> {
    match result {
        Ok((game, version)) => Ok((game@, version@)),
        Err(message) => Err(message@),
    }
}

/// Matches a name against the pattern with `Regex::new` and `Regex::is_match`. The pattern is a
/// valid one; it is anchored at both ends of the text, and `\s` in it stands for any character with
/// the Unicode property `White_Space`.
#[verifier::external_body]
fn matches_pattern(pattern: &str, name: &str) -> (r: bool)
    requires
        pattern@ == NAME_PATTERN@,
    ensures
        r == is_name(name@),
{
    regex::Regex::new(pattern).unwrap().is_match(name)
}

impl Clone for RequestSession {
    fn clone(&self) -> (r: Self)
        ensures
            r.game@ == self.game@,
            r.version@ == self.version@,
            text::opt_text(r.client_ip) == text::opt_text(self.client_ip),
            r.room is Some <==> self.room is Some,
            self.room matches Some(room) ==> r.room->0@ == room@,
    {
        RequestSession {
            game: self.game.clone(),
            version: self.version.clone(),
            client_ip: text::copy_opt(&self.client_ip),
            room: match &self.room {
                Some(room) => Some(room.clone()),
                None => None,
            },
        }
    }
}

impl RequestSession {
    /// The game and version that are asked for, or what is wrong with them.
    pub fn game_name_and_version(&self) -> (r: Result<(String, String), String>)
        ensures
            names_result(r) == checked_names(self.game@, self.version@),
    {
        if !matches_pattern(NAME_PATTERN, self.game.as_str()) {
            return Err("Game name invalid".to_owned());
        }
        if !matches_pattern(NAME_PATTERN, self.version.as_str()) {
            return Err("Game version invalid".to_owned());
        }
        if text::byte_length(self.game.as_str()) > MAX_NAME_BYTES {
            return Err("Game name too long (max 30 chars)".to_owned());
        }
        if text::byte_length(self.version.as_str()) > MAX_NAME_BYTES {
            return Err("Game version too long (max 30 chars)".to_owned());
        }
        Ok((self.game.clone(), self.version.clone()))
    }

    /// The room to play in: any, where none was asked for.
    pub fn room_selection(&self) -> (r: RoomSelection)
        ensures
            r@ == (match self.room {
                Some(room) => room@,
                None => RoomSelectionView::Auto,
            }),
    {
        match &self.room {
            Some(room) => room.clone(),
            None => RoomSelection::default(),
        }
    }
}

// ---------------------------------------------------------------------------
// Capacity
// ---------------------------------------------------------------------------

/// A limit in force: no limit is below 1.
pub open spec fn limit(n: u32) -> int {
    vstd::math::max(n as int, 1)
}

/// There is room for one more, under the deployment's own limit and under that of the policy.
pub open spec fn has_room(used: u32, own: u32, policy: u32) -> bool {
    used < vstd::math::min(limit(own), limit(policy))
}

fn limit_of(n: u32) -> (r: u32)
    ensures
        r == limit(n),
{
    if n < 1 {
        1
    } else {
        n
    }
}

fn room_left(used: u32, own: u32, policy: u32) -> (r: bool)
    ensures
        r == has_room(used, own, policy),
{
    used < limit_of(own) && used < limit_of(policy)
}

/// How full a room is.
#[derive(Debug, PartialEq)]
pub struct DeploymentRoomMetrics {
    pub key: String,
    pub private: bool,
    pub players: u32,
    pub max_players: u32,
}

/// A [`DeploymentRoomMetrics`] in contracts.
pub struct RoomMetricsView {
    pub key: Seq<char>,
    pub private: bool,
    pub players: u32,
    pub max_players: u32,
}

impl View for DeploymentRoomMetrics {
    type V = RoomMetricsView;

    open spec fn view(&self) -> RoomMetricsView {
        RoomMetricsView {
            key: self.key@,
            private: self.private,
            players: self.players,
            max_players: self.max_players,
        }
    }
}

/// The rooms `rooms`, in contracts.
pub open spec fn room_views(rooms: Seq<DeploymentRoomMetrics>) -> Seq<RoomMetricsView> {
    rooms.map_values(|room: DeploymentRoomMetrics| room@)
}

impl Clone for DeploymentRoomMetrics {
    fn clone(&self) -> (r: Self)
        ensures
            r@ == self@,
    {
        DeploymentRoomMetrics {
            key: self.key.clone(),
            private: self.private,
            players: self.players,
            max_players: self.max_players,
        }
    }
}

/// A copy of `rooms`.
pub fn copy_rooms(rooms: &Vec<DeploymentRoomMetrics>) -> (r: Vec<DeploymentRoomMetrics>)
    ensures
        room_views(r@) == room_views(rooms@),
        r@.len() == rooms@.len(),
        forall|i: int|
            0 <= i < rooms@.len() ==> {
                &&& (#[trigger] r@[i]).key@ == rooms@[i].key@
                &&& r@[i].private == rooms@[i].private
                &&& r@[i].players == rooms@[i].players
                &&& r@[i].max_players == rooms@[i].max_players
            },
{
    let mut r: Vec<DeploymentRoomMetrics> = Vec::new();
    let mut i: usize = 0;
    while i < rooms.len()
        invariant
            i <= rooms@.len(),
            r@.len() == i,
            forall|j: int| 0 <= j < i ==> (#[trigger] r@[j])@ == rooms@[j]@,
        decreases rooms@.len() - i,
    {
        r.push(rooms[i].clone());
        i += 1;
    }
    assert(room_views(r@) == room_views(rooms@));
    r
}

impl DeploymentRoomMetrics {
    /// There is room for one more player.
    pub fn has_player_capacity(&self) -> (r: bool)
        ensures
            r == (self.players < limit(self.max_players)),
            self.max_players >= 1 ==> r == (self.players < self.max_players),
            self.max_players == 0 ==> r == (self.players == 0),
    {
        self.players < limit_of(self.max_players)
    }
}

/// How full a deployment is.
#[derive(Debug, PartialEq)]
pub struct DeploymentMetrics {
    pub request_id: String,
    pub public_ip: String,
    pub external_port: Option<u16>,
    pub total_players: u32,
    pub max_players: u32,
    pub max_rooms: u32,
    pub rooms: Vec<DeploymentRoomMetrics>,
}

/// A [`DeploymentMetrics`] in contracts.
pub struct DeploymentMetricsView {
    pub request_id: Seq<char>,
    pub public_ip: Seq<char>,
    pub external_port: Option<u16>,
    pub total_players: u32,
    pub max_players: u32,
    pub max_rooms: u32,
    pub rooms: Seq<RoomMetricsView>,
}

impl View for DeploymentMetrics {
    type V = DeploymentMetricsView;

    open spec fn view(&self) -> DeploymentMetricsView {
        DeploymentMetricsView {
            request_id: self.request_id@,
            public_ip: self.public_ip@,
            external_port: self.external_port,
            total_players: self.total_players,
            max_players: self.max_players,
            max_rooms: self.max_rooms,
            rooms: room_views(self.rooms@),
        }
    }
}

impl Clone for DeploymentMetrics {
    fn clone(&self) -> (r: Self)
        ensures
            r@ == self@,
    {
        DeploymentMetrics {
            request_id: self.request_id.clone(),
            public_ip: self.public_ip.clone(),
            external_port: self.external_port,
            total_players: self.total_players,
            max_players: self.max_players,
            max_rooms: self.max_rooms,
            rooms: copy_rooms(&self.rooms),
        }
    }
}

impl DeploymentMetrics {
    /// How many rooms there are, as far as a `u32` can say.
    pub open spec fn rooms_counted(&self) -> u32 {
        (self.rooms@.len() % 0x1_0000_0000) as u32
    }

    /// How many rooms there are, as far as a `u32` can say.
    pub fn room_count(&self) -> (r: u32)
        ensures
            r == self.rooms_counted(),
            self.rooms@.len() <= u32::MAX ==> r == self.rooms@.len(),
    {
        let n: u64 = self.rooms.len() as u64;
        assert((n as u32) as u64 == n % 0x1_0000_0000) by (bit_vector);
        #[verifier::truncate]
        (n as u32)
    }

    /// There is room for one more player.
    pub fn has_deployment_player_capacity(&self, policy_max_players: u32) -> (r: bool)
        ensures
            r == has_room(self.total_players, self.max_players, policy_max_players),
            self.max_players >= 1 && policy_max_players >= 1 ==> r == (self.total_players
                < self.max_players && self.total_players < policy_max_players),
            self.max_players == 0 || policy_max_players == 0 ==> r == (self.total_players == 0),
    {
        room_left(self.total_players, self.max_players, policy_max_players)
    }

    /// There is room for one more room.
    pub fn has_room_capacity(&self, policy_max_rooms: u32) -> (r: bool)
        ensures
            r == has_room(self.rooms_counted(), self.max_rooms, policy_max_rooms),
            self.rooms@.len() <= u32::MAX && self.max_rooms >= 1 && policy_max_rooms >= 1 ==> r == (
            self.rooms@.len() < self.max_rooms && self.rooms@.len() < policy_max_rooms),
            self.rooms@.len() <= u32::MAX && (self.max_rooms == 0 || policy_max_rooms == 0) ==> r
                == (self.rooms@.len() == 0),
    {
        room_left(self.room_count(), self.max_rooms, policy_max_rooms)
    }
}

// ---------------------------------------------------------------------------
// Laws
// ---------------------------------------------------------------------------

/// A room that was asked for by code is never taken for one that was asked for by id.
pub proof fn law_codes_and_ids_are_apart(code: Seq<char>, id: Seq<char>)
    ensures
        key_of(RoomSelectionView::Code(code)) != key_of(RoomSelectionView::Id(id)),
{
    reveal_strlit("code:");
    reveal_strlit("id:");
    assert(("code:"@ + normalized(code))[0] == 'c');
    assert(("id:"@ + normalized(id))[0] == 'i');
}

proof fn lemma_kept_without_first(s: Seq<char>)
    requires
        s.len() > 0,
        !text::is_token_char(s[0]),
    ensures
        text::kept(s.drop_first()) == text::kept(s),
{
    let keep = |c: char| text::is_token_char(c);
    assert(s == seq![s[0]] + s.drop_first());
    assert(seq![s[0]].filter(keep) == Seq::<char>::empty()) by {
        reveal_with_fuel(Seq::filter, 2);
        assert(seq![s[0]].drop_last() == Seq::<char>::empty());
    }
    Seq::filter_distributes_over_add(seq![s[0]], s.drop_first(), keep);
    assert(text::kept(s) == Seq::<char>::empty() + text::kept(s.drop_first()));
}

proof fn lemma_kept_of_trimmed(s: Seq<char>)
    ensures
        text::kept(text::trim_start(s)) == text::kept(s),
        text::kept(text::trim_end(s)) == text::kept(s),
    decreases s.len(),
{
    if s.len() > 0 && text::is_white_space(s[0]) {
        lemma_kept_of_trimmed(s.drop_first());
        lemma_kept_without_first(s);
    }
    if s.len() > 0 && text::is_white_space(s.last()) {
        lemma_kept_of_trimmed(s.drop_last());
        reveal(Seq::filter);
    }
}

proof fn lemma_kept_of_uppered(s: Seq<char>)
    ensures
        text::kept(text::uppered(s)) == text::uppered(text::kept(s)),
    decreases s.len(),
{
    reveal(Seq::filter);
    if s.len() > 0 {
        lemma_kept_of_uppered(s.drop_last());
        assert(text::uppered(s).drop_last() == text::uppered(s.drop_last()));
        assert(text::uppered(s).last() == text::upper(s.last()));
        assert(text::is_token_char(text::upper(s.last())) == text::is_token_char(s.last()));
        if text::is_token_char(s.last()) {
            assert(text::kept(s) == text::kept(s.drop_last()).push(s.last()));
            assert(text::uppered(text::kept(s)) == text::uppered(text::kept(s.drop_last())).push(
                text::upper(s.last()),
            ));
        }
    } else {
        assert(text::uppered(s) == s);
        assert(text::uppered(text::kept(s)) == text::kept(s));
    }
}

/// Room codes and ids are the same whatever the case of their ASCII letters.
pub proof fn law_room_keys_ignore_case(a: Seq<char>, b: Seq<char>)
    requires
        text::uppered(a) == text::uppered(b),
    ensures
        normalized(a) == normalized(b),
        key_of(RoomSelectionView::Code(a)) == key_of(RoomSelectionView::Code(b)),
        key_of(RoomSelectionView::Id(a)) == key_of(RoomSelectionView::Id(b)),
{
    lemma_normalized(a);
    lemma_normalized(b);
    lemma_kept_of_uppered(a);
    lemma_kept_of_uppered(b);
    assert(text::uppered(text::kept(a)).len() == text::kept(a).len());
    assert(text::uppered(text::kept(b)).len() == text::kept(b).len());
}

proof fn lemma_normalized(s: Seq<char>)
    ensures
        text::kept(text::trimmed(s)) == text::kept(s),
{
    lemma_kept_of_trimmed(s);
    lemma_kept_of_trimmed(text::trim_start(s));
}

/// Normalizing the token of a room again changes nothing, where it holds a character to keep.
pub proof fn law_normalized_is_stable(value: Seq<char>)
    requires
        text::kept(value).len() > 0,
    ensures
        normalized(normalized(value)) == normalized(value),
{
    lemma_normalized(value);
    let token = normalized(value);
    lemma_normalized(token);
    lemma_kept_of_uppered(text::kept(value));
    lemma_kept_twice(value);
    assert(text::kept(token) == token);
    assert(token.len() == text::kept(value).len());
    assert(text::uppered(token) == token);
}

proof fn lemma_kept_twice(s: Seq<char>)
    ensures
        text::kept(text::kept(s)) == text::kept(s),
    decreases s.len(),
{
    reveal(Seq::filter);
    if s.len() > 0 {
        lemma_kept_twice(s.drop_last());
        if text::is_token_char(s.last()) {
            let rest = text::kept(s.drop_last());
            assert(text::kept(s) == rest.push(s.last()));
            assert(rest.push(s.last()).drop_last() == rest);
        }
    }
}

/// An empty deployment takes a player, and an empty room does, whatever the limits: no limit is
/// below 1.
pub proof fn law_empty_has_room(own: u32, policy: u32)
    ensures
        has_room(0, own, policy),
        0 < limit(own),
{
}

/// The policy only ever lowers the deployment's own limit, and the other way round: where there is
/// room under both, there is under each alone.
pub proof fn law_both_limits_hold(used: u32, own: u32, policy: u32)
    ensures
        has_room(used, own, policy) <==> used < limit(own) && used < limit(policy),
        has_room(used, own, policy) <==> has_room(used, policy, own),
{
}

/// Names that are accepted are told back as they are.
pub proof fn law_accepted_names_are_kept(game: Seq<char>, version: Seq<char>)
    ensures
        checked_names(game, version) is Ok <==> is_name(game) && is_name(version) && !is_too_long(
            game,
        ) && !is_too_long(version),
        checked_names(game, version) matches Ok(names) ==> names == (game, version),
{
}

/// Where a room may hold a player at all, there is room for one more exactly while there are fewer
/// than it may hold; where it may hold none, exactly while there are none.
pub proof fn law_room_has_capacity_below_its_limit(room: DeploymentRoomMetrics)
    ensures
        room.max_players >= 1 ==> (room.players < limit(room.max_players) <==> room.players
            < room.max_players),
        room.max_players == 0 ==> (room.players < limit(room.max_players) <==> room.players == 0),
{
}

/// There is capacity exactly while what is used is below the deployment's number and below the
/// policy's, where a number of 0 counts as 1.
pub proof fn law_capacity_is_below_both_numbers(used: u32, own: u32, policy: u32)
    ensures
        own >= 1 && policy >= 1 ==> (has_room(used, own, policy) <==> used < own && used < policy),
        own == 0 || policy == 0 ==> (has_room(used, own, policy) <==> used == 0),
{
}

/// More room never takes capacity away, and one more that is used never gives any.
pub proof fn law_capacity_is_monotone(used: u32, own: u32, policy: u32, more: u32)
    requires
        more >= own,
    ensures
        has_room(used, own, policy) ==> has_room(used, more, policy),
        has_room(used, own, policy) && used > 0 ==> has_room((used - 1) as u32, own, policy),
        !has_room(u32::MAX, own, policy),
{
}

/// A deployment has as many rooms as it lists, where a `u32` can say how many; else as many as are left
/// once every full round of a `u32` is taken off.
pub proof fn law_every_room_counts(metrics: DeploymentMetrics)
    ensures
        metrics.rooms@.len() <= u32::MAX ==> metrics.rooms_counted() == metrics.rooms@.len(),
        (metrics.rooms@.len() - metrics.rooms_counted()) % 0x1_0000_0000 == 0,
{
}

/// The token of a room is made of what tokens keep of it: a token in upper case is its own, other
/// characters and the case do not count, and two texts with other tokens never share one.
pub proof fn law_room_tokens(value: Seq<char>, other: Seq<char>)
    ensures
        normalized(value) == (if text::kept(value).len() == 0 {
            "unknown"@
        } else {
            normalized(text::kept(value))
        }),
        value.len() > 0 && (forall|i: int|
            0 <= i < value.len() ==> text::is_token_char(#[trigger] value[i]) && !('a' <= value[i]
                <= 'z')) ==> normalized(value) == value,
        text::kept(value).len() > 0 && text::kept(other).len() > 0 ==> (normalized(value)
            == normalized(other) <==> text::uppered(text::kept(value)) == text::uppered(
            text::kept(other),
        )),
{
    lemma_normalized(value);
    lemma_normalized(other);
    lemma_normalized(text::kept(value));
    lemma_kept_twice(value);
    if value.len() > 0 && (forall|i: int|
        0 <= i < value.len() ==> text::is_token_char(#[trigger] value[i]) && !('a' <= value[i]
            <= 'z')) {
        lemma_token_is_kept(value);
        assert(text::uppered(value) == value);
    }
}

proof fn lemma_token_is_kept(s: Seq<char>)
    requires
        forall|i: int| 0 <= i < s.len() ==> text::is_token_char(#[trigger] s[i]),
    ensures
        text::kept(s) == s,
    decreases s.len(),
{
    reveal(Seq::filter);
    if s.len() > 0 {
        let rest = s.drop_last();
        assert forall|i: int| 0 <= i < rest.len() implies text::is_token_char(
            #[trigger] rest[i],
        ) by {
            assert(rest[i] == s[i]);
        }
        lemma_token_is_kept(rest);
        assert(text::is_token_char(s[s.len() - 1]));
        assert(rest.push(s.last()) == s);
    }
}

/// A room has a key where it was asked for by code or by id: what it was asked by, a colon, and its
/// token.
pub proof fn law_room_keys_say_how_they_were_asked_for(token: Seq<char>)
    requires
        token.len() > 0,
        forall|i: int|
            0 <= i < token.len() ==> text::is_token_char(#[trigger] token[i]) && !('a' <= token[i]
                <= 'z'),
    ensures
        key_of(RoomSelectionView::Auto) is None,
        key_of(RoomSelectionView::New) is None,
        key_of(RoomSelectionView::Code(token)) == Some("code:"@ + token),
        key_of(RoomSelectionView::Id(token)) == Some("id:"@ + token),
{
    law_room_tokens(token, token);
}

/// Names are accepted where each is made of ASCII letters and digits, white space, `_` and `-`, and
/// takes between 1 and 30 bytes; else what is wrong is told, the first thing first.
pub proof fn law_names_are_checked(game: Seq<char>, version: Seq<char>)
    ensures
        ({
            let good = |name: Seq<char>|
                name.len() > 0 && (forall|i: int|
                    0 <= i < name.len() ==> {
                        let c = #[trigger] name[i];
                        'a' <= c <= 'z' || 'A' <= c <= 'Z' || '0' <= c <= '9' || c == '_' || c
                            == '-' || text::is_white_space(c)
                    });
            let result = checked_names(game, version);
            &&& good(game) && good(version) && encode_utf8(game).len() <= 30 && encode_utf8(
                version,
            ).len() <= 30 ==> result == Ok::<(Seq<char>, Seq<char>), Seq<char>>((game, version))
            &&& !good(game) ==> result == Err::<(Seq<char>, Seq<char>), Seq<char>>(
                "Game name invalid"@,
            )
            &&& good(game) && !good(version) ==> result == Err::<
                (Seq<char>, Seq<char>),
                Seq<char>,
            >("Game version invalid"@)
            &&& good(game) && good(version) && encode_utf8(game).len() > 30 ==> result == Err::<
                (Seq<char>, Seq<char>),
                Seq<char>,
            >("Game name too long (max 30 chars)"@)
            &&& good(game) && good(version) && encode_utf8(game).len() <= 30 && encode_utf8(
                version,
            ).len() > 30 ==> result == Err::<(Seq<char>, Seq<char>), Seq<char>>(
                "Game version too long (max 30 chars)"@,
            )
        }),
{
    let good = |name: Seq<char>|
        name.len() > 0 && (forall|i: int|
            0 <= i < name.len() ==> {
                let c = #[trigger] name[i];
                'a' <= c <= 'z' || 'A' <= c <= 'Z' || '0' <= c <= '9' || c == '_' || c == '-'
                    || text::is_white_space(c)
            });
    assert(good(game) == is_name(game));
    assert(good(version) == is_name(version));
}

/// Two metrics that are the same in contracts are the same field by field, and room by room.
pub proof fn law_metrics_are_their_fields(a: DeploymentMetrics, b: DeploymentMetrics)
    requires
        a@ == b@,
    ensures
        a.request_id@ == b.request_id@,
        a.public_ip@ == b.public_ip@,
        a.external_port == b.external_port,
        a.total_players == b.total_players,
        a.max_players == b.max_players,
        a.max_rooms == b.max_rooms,
        a.rooms@.len() == b.rooms@.len(),
        forall|i: int|
            0 <= i < a.rooms@.len() ==> {
                &&& (#[trigger] a.rooms@[i]).key@ == b.rooms@[i].key@
                &&& a.rooms@[i].private == b.rooms@[i].private
                &&& a.rooms@[i].players == b.rooms@[i].players
                &&& a.rooms@[i].max_players == b.rooms@[i].max_players
            },
{
    assert(a@.rooms.len() == a.rooms@.len() && b@.rooms.len() == b.rooms@.len());
    assert forall|i: int| 0 <= i < a.rooms@.len() implies {
        &&& (#[trigger] a.rooms@[i]).key@ == b.rooms@[i].key@
        &&& a.rooms@[i].private == b.rooms@[i].private
        &&& a.rooms@[i].players == b.rooms@[i].players
        &&& a.rooms@[i].max_players == b.rooms@[i].max_players
    } by {
        assert(a@.rooms[i] == a.rooms@[i]@ && b@.rooms[i] == b.rooms@[i]@);
    }
}

/// What is shown of feedback holds the id, the message, the address and the code as they are; and the
/// port and the code read back from it.
pub proof fn law_feedback_is_shown(a: String, b: String, c: String, n: u16)
    ensures
        shown(SessionRequestFeedback::Acknowledged) == "Sending request"@,
        shown(SessionRequestFeedback::SessionRequestAccepted(a)).skip(18) == a@,
        shown(SessionRequestFeedback::ProgressReport(a)).skip(13) == a@,
        ({
            let ready = shown(
                SessionRequestFeedback::SessionReady { token: a, ip: b, port: n, cert_digest: c },
            );
            &&& ready.take(15) == "Session Ready! "@
            &&& ready.subrange(15, 15 + b@.len() as int) == b@
            &&& ready[15 + b@.len() as int] == ':'
            &&& text::parsed_unsigned(ready.skip(16 + b@.len() as int), u16::MAX as nat) == Some(
                n as nat,
            )
        }),
        ({
            let error = shown(SessionRequestFeedback::Error(n, a));
            let code = text::decimal(n as nat);
            &&& error == "Error "@ + code + ": "@ + a@
            &&& text::parsed_unsigned(code, u16::MAX as nat) == Some(n as nat)
        }),
{
    reveal_strlit("Request accepted: ");
    reveal_strlit("In-progress: ");
    reveal_strlit("Session Ready! ");
    reveal_strlit(":");
    text::law_decimal_reads_back(n as nat, u16::MAX as nat);
    assert(("Request accepted: "@ + a@).skip(18) == a@);
    assert(("In-progress: "@ + a@).skip(13) == a@);
    let shown_port = text::decimal(n as nat);
    let ready = "Session Ready! "@ + b@ + ":"@ + shown_port;
    assert(ready.take(15) == "Session Ready! "@);
    assert(ready.subrange(15, 15 + b@.len() as int) == b@);
    assert(ready.skip(16 + b@.len() as int) == shown_port);
}

} // verus!
