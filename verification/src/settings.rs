//! The settings of the matchmaker, and the netcode identity they give.
//!
//! What the environment holds comes in as `Option<&str>`: the value of the variable, where it is
//! set and valid Unicode.
use crate::flags;
use crate::private_key;
use crate::private_key::KeyError;
use crate::text;
use crate::text_laws;
use crate::token;
use vstd::prelude::*;
use vstd::string::*;

verus! {

/// How long a session may take to be created, in seconds.
pub const MAX_SESSION_CREATION_SECONDS: u64 = 60;

/// Holds the netcode protocol id.
pub const LIGHTRIDER_PROTOCOL_ID_ENV: &'static str = "LIGHTRIDER_PROTOCOL_ID";

/// Holds the netcode private key.
pub const LIGHTRIDER_PRIVATE_KEY_ENV: &'static str = "LIGHTRIDER_PRIVATE_KEY";

/// Holds the netcode private key where the other variable does not.
pub const LIGHTRIDER_LEGACY_KEY_ENV: &'static str = "LIGHTRIDER_NETCODE_KEY";

/// Requires a netcode identity other than that for development.
pub const LIGHTRIDER_REQUIRE_PRODUCTION_NETCODE_ENV: &'static str =
    "LIGHTRIDER_REQUIRE_PRODUCTION_NETCODE";

/// Where the Edgegap API is.
pub const EDGEGAP_BASE_PATH: &'static str = "https://api.edgegap.com";

/// What the matchmaker is started with.
#[derive(Debug)]
pub struct Settings {
    pub app_name: String,
    pub app_version: String,
    /// The private key that tokens are sealed with: 32 numbers with commas between them, or 64 hex
    /// digits.
    pub lightyear_private_key: String,
    /// The netcode protocol id. 0 stands for none.
    pub lightyear_protocol_id: u64,
    /// Where Edgegap reports session events to.
    pub session_webhook_url: Option<String>,
    /// Use a local mock session instead of calling the Edgegap API.
    pub mock_edgegap: bool,
    /// Public address of mock deployments.
    pub mock_public_ip: String,
    /// External game port of mock deployments.
    pub mock_external_port: u16,
    /// Prefix of mock session ids.
    pub mock_session_id_prefix: String,
    /// Request id of mock deployments.
    pub mock_deployment_request_id: String,
    /// Delay before a mock session is ready, in milliseconds.
    pub mock_ready_delay_ms: u64,
}

impl Clone for Settings {
    fn clone(&self) -> (r: Self)
        ensures
            r.app_name@ == self.app_name@,
            r.app_version@ == self.app_version@,
            r.lightyear_private_key@ == self.lightyear_private_key@,
            r.lightyear_protocol_id == self.lightyear_protocol_id,
            text::opt_text(r.session_webhook_url) == text::opt_text(self.session_webhook_url),
            r.mock_edgegap == self.mock_edgegap,
            r.mock_public_ip@ == self.mock_public_ip@,
            r.mock_external_port == self.mock_external_port,
            r.mock_session_id_prefix@ == self.mock_session_id_prefix@,
            r.mock_deployment_request_id@ == self.mock_deployment_request_id@,
            r.mock_ready_delay_ms == self.mock_ready_delay_ms,
    {
        Settings {
            app_name: self.app_name.clone(),
            app_version: self.app_version.clone(),
            lightyear_private_key: self.lightyear_private_key.clone(),
            lightyear_protocol_id: self.lightyear_protocol_id,
            session_webhook_url: text::copy_opt(&self.session_webhook_url),
            mock_edgegap: self.mock_edgegap,
            mock_public_ip: self.mock_public_ip.clone(),
            mock_external_port: self.mock_external_port,
            mock_session_id_prefix: self.mock_session_id_prefix.clone(),
            mock_deployment_request_id: self.mock_deployment_request_id.clone(),
            mock_ready_delay_ms: self.mock_ready_delay_ms,
        }
    }
}

// ---------------------------------------------------------------------------
// Netcode identity
// ---------------------------------------------------------------------------

/// The protocol id: the setting, where it is not 0; else what the variable holds, where it is not
/// blank; else 0. Nothing where the variable holds something else than a number.
pub open spec fn protocol_id_of(setting: u64, variable: Option<Seq<char>>) -> Option<u64> {
    if setting != 0 {
        Some(setting)
    } else {
        match variable {
            Some(value) => if text::is_blank(value) {
                Some(0)
            } else {
                match text::parsed_unsigned(text::trimmed(value), u64::MAX as nat) {
                    Some(n) => Some(n as u64),
                    None => None,
                }
            },
            None => Some(0),
        }
    }
}

/// The variable asks for a netcode identity other than that for development.
pub open spec fn is_production_required(variable: Option<Seq<char>>) -> bool {
    variable matches Some(value) && flags::is_yes(flags::word(value))
}

/// The identity for development: without a protocol id, or with the key for development.
pub open spec fn is_dev_identity(protocol_id: u64, private_key: Seq<u8>) -> bool {
    protocol_id == 0 || private_key == private_key::zero_key()
}

/// A netcode identity that may be used.
#[derive(Debug, Clone, Copy, PartialEq, Eq)]
pub enum NetcodeIdentity {
    /// The one for development.
    Development,
    /// The one that is configured, with this protocol id.
    Configured(u64),
}

/// Why a netcode identity may not be used.
#[derive(Debug, Clone, Copy, PartialEq, Eq)]
pub enum IdentityError {
    /// The protocol id is not a number.
    ProtocolId,
    /// It is the one for development, and another is required.
    Development,
}

impl IdentityError {
    /// What to stop with.
    pub fn message(&self) -> (r: &'static str)
        ensures
            r@ == (match *self {
                IdentityError::ProtocolId => "Failed to parse LIGHTRIDER_PROTOCOL_ID"@,
                IdentityError::Development =>
                    "LIGHTRIDER_REQUIRE_PRODUCTION_NETCODE=1 requires nonzero LIGHTRIDER_PROTOCOL_ID and LIGHTRIDER_PRIVATE_KEY"@,
            }),
    {
        match self {
            IdentityError::ProtocolId => "Failed to parse LIGHTRIDER_PROTOCOL_ID",
            IdentityError::Development =>
                "LIGHTRIDER_REQUIRE_PRODUCTION_NETCODE=1 requires nonzero LIGHTRIDER_PROTOCOL_ID and LIGHTRIDER_PRIVATE_KEY",
        }
    }
}

/// Whether a netcode identity may be used.
pub open spec fn identity_of(
    protocol_id: Option<u64>,
    private_key: Seq<u8>,
    production_required: bool,
) -> Result<NetcodeIdentity, IdentityError> {
    match protocol_id {
        None => Err(IdentityError::ProtocolId),
        Some(id) => if !is_dev_identity(id, private_key) {
            Ok(NetcodeIdentity::Configured(id))
        } else if production_required {
            Err(IdentityError::Development)
        } else {
            Ok(NetcodeIdentity::Development)
        },
    }
}

impl Settings {
    /// The private key that tokens are sealed with.
    pub fn parse_private_key(
        &self,
        private_key_var: Option<&str>,
        legacy_key_var: Option<&str>,
    ) -> (r: Result<[u8; token::PRIVATE_KEY_BYTES], KeyError>)
        ensures
            private_key::key_result(r) == private_key::key_in(
                private_key::key_text(
                    self.lightyear_private_key@,
                    text::opt_str(private_key_var),
                    text::opt_str(legacy_key_var),
                ),
            ),
    {
        let value = if !text::blank(self.lightyear_private_key.as_str()) {
            self.lightyear_private_key.as_str()
        } else {
            match private_key_var {
                Some(value) => value,
                None => match legacy_key_var {
                    Some(value) => value,
                    None => {
                        proof {
                            reveal_strlit("");
                        }
                        ""
                    },
                },
            }
        };
        if text::blank(value) {
            let key: [u8; token::PRIVATE_KEY_BYTES] = [0u8; token::PRIVATE_KEY_BYTES];
            assert(key@ == private_key::zero_key());
            return Ok(key);
        }
        if text::contains_char(value, ',') {
            return private_key::parse_comma_private_key(value);
        }
        private_key::parse_hex_private_key(value)
    }

    /// The protocol id, or nothing where the variable is needed for it and holds no number.
    pub fn read_protocol_id(&self, protocol_id_var: Option<&str>) -> (r: Option<u64>)
        ensures
            r == protocol_id_of(self.lightyear_protocol_id, text::opt_str(protocol_id_var)),
    {
        if self.lightyear_protocol_id != 0 {
            return Some(self.lightyear_protocol_id);
        }
        match protocol_id_var {
            Some(value) => {
                if text::blank(value) {
                    return Some(0);
                }
                let trimmed = text::trim(value);
                text::parse_u64(trimmed.as_str())
            },
            None => Some(0),
        }
    }

    /// The protocol id, where the variable is not needed for it or holds a number.
    pub fn protocol_id(&self, protocol_id_var: Option<&str>) -> (r: u64)
        requires
            protocol_id_of(self.lightyear_protocol_id, text::opt_str(protocol_id_var)) is Some,
        ensures
            Some(r) == protocol_id_of(self.lightyear_protocol_id, text::opt_str(protocol_id_var)),
    {
        match self.read_protocol_id(protocol_id_var) {
            Some(id) => id,
            None => 0,
        }
    }

    /// The variable asks for a netcode identity other than that for development.
    pub fn require_production_netcode(&self, require_var: Option<&str>) -> (r: bool)
        ensures
            r == is_production_required(text::opt_str(require_var)),
    {
        match require_var {
            Some(value) => {
                let w = flags::to_word(value);
                flags::yes_word(w.as_str())
            },
            None => false,
        }
    }

    /// Whether the netcode identity may be used.
    pub fn validate_netcode_identity(
        &self,
        private_key: [u8; token::PRIVATE_KEY_BYTES],
        protocol_id_var: Option<&str>,
        require_var: Option<&str>,
    ) -> (r: Result<NetcodeIdentity, IdentityError>)
        ensures
            r == identity_of(
                protocol_id_of(self.lightyear_protocol_id, text::opt_str(protocol_id_var)),
                private_key@,
                is_production_required(text::opt_str(require_var)),
            ),
    {
        match self.read_protocol_id(protocol_id_var) {
            None => Err(IdentityError::ProtocolId),
            Some(protocol_id) => {
                let uses_dev_identity = protocol_id == 0 || private_key::is_zero(&private_key);
                if self.require_production_netcode(require_var) && uses_dev_identity {
                    return Err(IdentityError::Development);
                }
                if uses_dev_identity {
                    Ok(NetcodeIdentity::Development)
                } else {
                    Ok(NetcodeIdentity::Configured(protocol_id))
                }
            },
        }
    }
}

// ---------------------------------------------------------------------------
// Edgegap
// ---------------------------------------------------------------------------

/// How to reach the Edgegap API.
#[derive(Debug, PartialEq, Eq)]
pub struct EdgegapAccess {
    pub base_path: String,
    pub api_key: String,
}

/// How to reach the Edgegap API with the key that the environment holds, where it holds one.
pub fn edgegap_configuration(api_key_var: Option<&str>) -> (r: Option<EdgegapAccess>)
    ensures
        r is Some <==> api_key_var is Some,
        r matches Some(access) ==> access.base_path@ == EDGEGAP_BASE_PATH@ && Some(access.api_key@)
            == text::opt_str(api_key_var),
{
    match api_key_var {
        Some(key) => Some(
            EdgegapAccess { base_path: EDGEGAP_BASE_PATH.to_owned(), api_key: key.to_owned() },
        ),
        None => None,
    }
}

/// Whether sessions can be created with a version of the application, by what Edgegap says of it.
pub fn version_is_active(is_active: Option<bool>) -> (r: bool)
    ensures
        r == (is_active == Some(true)),
{
    match is_active {
        Some(active) => active,
        None => false,
    }
}

// ---------------------------------------------------------------------------
// Laws
// ---------------------------------------------------------------------------

/// Where a production identity is required, the protocol id in use is not 0 and the key is not the
/// one for development; and such an identity is never refused.
pub proof fn law_production_identity_is_enforced(
    protocol_id: Option<u64>,
    private_key: Seq<u8>,
    production_required: bool,
)
    ensures
        production_required && identity_of(protocol_id, private_key, production_required) is Ok
            ==> protocol_id is Some && protocol_id->0 != 0 && private_key != private_key::zero_key(),
        protocol_id is Some && protocol_id->0 != 0 && private_key != private_key::zero_key() ==> identity_of(
            protocol_id,
            private_key,
            production_required,
        ) is Ok,
        !production_required && protocol_id is Some ==> identity_of(
            protocol_id,
            private_key,
            production_required,
        ) is Ok,
{
}

/// The protocol id is the setting, where that is not 0; else every number is read back from its
/// decimal notation in the variable, with or without white space around it.
pub proof fn law_protocol_id_reads_back(
    setting: u64,
    variable: Option<Seq<char>>,
    before: Seq<char>,
    n: u64,
    after: Seq<char>,
)
    requires
        text_laws::all_white(before),
        text_laws::all_white(after),
    ensures
        protocol_id_of(0, Some(before + text::decimal(n as nat) + after)) == Some(n),
        setting != 0 ==> protocol_id_of(setting, variable) == Some(setting),
        protocol_id_of(0, Some(before + after)) == Some(0u64),
        protocol_id_of(0, None) == Some(0u64),
{
    text::lemma_decimal_is_digits(n as nat);
    text::law_decimal_reads_back(n as nat, u64::MAX as nat);
    text_laws::law_digits_in_white_space(before, text::decimal(n as nat), after);
    text_laws::law_trimming_takes_off_white_space(before, Seq::empty(), after);
    assert(before + Seq::<char>::empty() + after == before + after);
}

/// Digits in the variable, with or without a `+` before them, are the protocol id by their value, and
/// no id where that is out of range.
pub proof fn law_protocol_id_is_the_value_of_its_digits(
    before: Seq<char>,
    s: Seq<char>,
    after: Seq<char>,
)
    requires
        text_laws::all_white(before),
        text_laws::all_white(after),
        s.len() > 0,
        forall|i: int| 0 <= i < s.len() ==> '0' <= #[trigger] s[i] <= '9',
    ensures
        ({
            let n = text::digits_value(s);
            let plain = protocol_id_of(0, Some(before + s + after));
            let signed = protocol_id_of(0, Some(before + (seq!['+'] + s) + after));
            &&& n <= u64::MAX ==> plain == Some(n as u64) && signed == Some(n as u64)
            &&& n > u64::MAX ==> plain is None && signed is None
        }),
{
    text_laws::law_digits_in_white_space(before, s, after);
    text_laws::law_unsigned_numbers(s, u64::MAX as nat);
}

/// Anything else in the variable, where it is needed, is no protocol id.
pub proof fn law_other_texts_are_no_protocol_id(
    before: Seq<char>,
    s: Seq<char>,
    after: Seq<char>,
    i: int,
)
    requires
        text_laws::all_white(before),
        text_laws::all_white(after),
        0 <= i < s.len(),
        !text::is_white_space(s[0]),
        !text::is_white_space(s.last()),
        !('0' <= s[i] <= '9'),
        i > 0 || s[i] != '+' || s.len() == 1,
    ensures
        protocol_id_of(0, Some(before + s + after)) is None,
{
    text_laws::law_trimming_takes_off_white_space(before, s, after);
    text_laws::law_other_texts_are_no_numbers(s, u64::MAX as nat, i);
}

/// A production identity is required by these words alone, in any case and with or without white
/// space around them.
pub proof fn law_production_is_required_by_these_words(
    before: Seq<char>,
    w: Seq<char>,
    after: Seq<char>,
)
    requires
        text_laws::all_white(before),
        text_laws::all_white(after),
        w.len() > 0 ==> !text::is_white_space(w[0]) && !text::is_white_space(w.last()),
    ensures
        is_production_required(Some(before + w + after)) <==> {
            let small = text::lowered(w);
            small == "1"@ || small == "true"@ || small == "yes"@ || small == "on"@
        },
        !is_production_required(None),
{
    flags::law_words(before, w, after);
}

/// Which identity is used: none without a protocol id; the one that is configured where the protocol
/// id is not 0 and the key holds a byte that is not 0; and else the one for development, which is
/// refused where another is required.
pub proof fn law_identity_in_use(
    id: u64,
    private_key: Seq<u8>,
    production_required: bool,
)
    requires
        private_key.len() == 32,
    ensures
        identity_of(None, private_key, production_required) == Err::<NetcodeIdentity, IdentityError>(
            IdentityError::ProtocolId,
        ),
        ({
            let identity = identity_of(Some(id), private_key, production_required);
            let configured = id != 0 && exists|i: int|
                0 <= i < 32 && #[trigger] private_key[i] != 0;
            &&& configured ==> identity == Ok::<NetcodeIdentity, IdentityError>(
                NetcodeIdentity::Configured(id),
            )
            &&& !configured && production_required ==> identity == Err::<
                NetcodeIdentity,
                IdentityError,
            >(IdentityError::Development)
            &&& !configured && !production_required ==> identity == Ok::<
                NetcodeIdentity,
                IdentityError,
            >(NetcodeIdentity::Development)
        }),
{
    if forall|i: int| 0 <= i < 32 ==> #[trigger] private_key[i] == 0 {
        assert(private_key == private_key::zero_key());
    } else {
        let i = choose|i: int| 0 <= i < 32 && #[trigger] private_key[i] != 0;
        assert(private_key::zero_key()[i] == 0);
    }
}

} // verus!
