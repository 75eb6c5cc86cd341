//! Client ids and connect tokens.
use base64::prelude::BASE64_STANDARD;
use base64::Engine;
use lightyear_netcode::ConnectToken;
use vstd::prelude::*;

verus! {

/// Length of a netcode private key in bytes.
pub const PRIVATE_KEY_BYTES: usize = 32;

/// Length of a serialized connect token in bytes.
pub const CONNECT_TOKEN_BYTES: usize = 2048;

/// Why there is no connect token. The text is the cause.
#[derive(Debug, PartialEq, Eq)]
pub enum TokenError<T> {
    /// The token could not be generated.
    Generate(T),
    /// The token could not be serialized.
    Serialize(T),
}

impl View for TokenError<String> {
    type V = TokenError<Seq<char>>;

    open spec fn view(&self) -> TokenError<Seq<char>> {
        match self {
            TokenError::Generate(cause) => TokenError::Generate(cause@),
            TokenError::Serialize(cause) => TokenError::Serialize(cause@),
        }
    }
}

/// `token` is what netcode serializes a connect token to that lets the client `client_id` connect
/// to the server at `address` under `protocol_id`, sealed with `private_key`.
pub uninterp spec fn grants_connection(
    token: Seq<u8>,
    address: Seq<char>,
    protocol_id: u64,
    client_id: u64,
    private_key: Seq<u8>,
) -> bool;

/// The base64 digit of `n`.
pub open spec fn base64_digit(n: int) -> char {
    if n < 26 {
        ('A' as int + n) as char
    } else if n < 52 {
        ('a' as int + n - 26) as char
    } else if n < 62 {
        ('0' as int + n - 52) as char
    } else if n == 62 {
        '+'
    } else {
        '/'
    }
}

/// The standard base64 text of `bytes`: four digits for each three bytes, and padding.
pub open spec fn base64_text(bytes: Seq<u8>) -> Seq<char>
    decreases bytes.len(),
{
    let a = bytes[0] as int;
    let b = bytes[1] as int;
    let c = bytes[2] as int;
    if bytes.len() == 0 {
        Seq::empty()
    } else if bytes.len() == 1 {
        seq![base64_digit(a / 4), base64_digit(a % 4 * 16), '=', '=']
    } else if bytes.len() == 2 {
        seq![
            base64_digit(a / 4),
            base64_digit(a % 4 * 16 + b / 16),
            base64_digit(b % 16 * 4),
            '=',
        ]
    } else {
        seq![
            base64_digit(a / 4),
            base64_digit(a % 4 * 16 + b / 16),
            base64_digit(b % 16 * 4 + c / 64),
            base64_digit(c % 64),
        ] + base64_text(bytes.skip(3))
    }
}

/// `text` is the base64 form of a token that grants the connection.
pub open spec fn is_connect_token(
    text: Seq<char>,
    address: Seq<char>,
    protocol_id: u64,
    client_id: u64,
    private_key: Seq<u8>,
) -> bool {
    exists|token: Seq<u8>|
        {
            &&& token.len() == CONNECT_TOKEN_BYTES
            &&& text == base64_text(token)
            &&& #[trigger] grants_connection(token, address, protocol_id, client_id, private_key)
        }
}

/// Builds a token with `ConnectToken::build(..).generate()` and serializes it with
/// `try_into_bytes`, which fills `CONNECT_TOKEN_BYTES` bytes. The token holds fresh keys, a fresh
/// nonce and the time, so two calls differ; each grants the connection that was asked for. The
/// address is read as a socket address, and one that does not read as such is an error. So is a
/// clock that is set before 1970, on any address; no success is claimed for that reason.
#[verifier::external_body]
fn netcode_token(
    address: &str,
    protocol_id: u64,
    client_id: u64,
    private_key: [u8; PRIVATE_KEY_BYTES],
) -> (r: Result<Vec<u8>, TokenError<String>>)
    ensures
        r matches Ok(token) ==> {
            &&& token@.len() == CONNECT_TOKEN_BYTES
            &&& grants_connection(token@, address@, protocol_id, client_id, private_key@)
        },
{
    match ConnectToken::build(address, protocol_id, client_id, private_key).generate() {
        Ok(token) => match token.try_into_bytes() {
            Ok(bytes) => Ok(bytes.to_vec()),
            Err(e) => Err(TokenError::Serialize(format!("{e:?}"))),
        },
        Err(e) => Err(TokenError::Generate(format!("{e:?}"))),
    }
}

/// Encodes bytes with `BASE64_STANDARD.encode`: with the standard alphabet, and padded to a multiple
/// of four characters.
#[verifier::external_body]
fn encode_base64(bytes: &Vec<u8>) -> (r: String)
    ensures
        r@ == base64_text(bytes@),
{
    BASE64_STANDARD.encode(bytes)
}

/// Draws a number with `rand::random`. Any `u64` may come back.
#[verifier::external_body]
pub(crate) fn random_u64() -> u64 {
    rand::random::<u64>()
}

/// What came of issuing a token, in contracts.
pub open spec fn token_result(result: Result<String, TokenError<String>>) -> Result<
    Seq<char>,
    TokenError<Seq<char>>,
> {
    match result {
        Ok(text) => Ok(text@),
        Err(error) => Err(error@),
    }
}

/// A serialized token as base64, and an error as it is.
pub open spec fn encoded(outcome: Result<Vec<u8>, TokenError<String>>) -> Result<
    Seq<char>,
    TokenError<Seq<char>>,
> {
    match outcome {
        Ok(token) => Ok(base64_text(token@)),
        Err(error) => Err(error@),
    }
}

/// What came of building a token, with the token as base64: there is a text exactly where there is
/// a token, and an error is passed on as it is.
pub fn encode_token(outcome: Result<Vec<u8>, TokenError<String>>) -> (r: Result<
    String,
    TokenError<String>,
>)
    ensures
        token_result(r) == encoded(outcome),
{
    match outcome {
        Ok(token) => Ok(encode_base64(&token)),
        Err(error) => Err(error),
    }
}

/// A connect token for `client_id` to the server at `address`, as base64. Whether there is one is up
/// to the address and the clock.
pub fn issue_token(
    address: &str,
    protocol_id: u64,
    client_id: u64,
    private_key: [u8; PRIVATE_KEY_BYTES],
) -> (r: Result<String, TokenError<String>>)
    ensures
        r matches Ok(text) ==> is_connect_token(
            text@,
            address@,
            protocol_id,
            client_id,
            private_key@,
        ),
{
    encode_token(netcode_token(address, protocol_id, client_id, private_key))
}

// ---------------------------------------------------------------------------
// Laws
// ---------------------------------------------------------------------------

/// A base64 text has four characters for each three bytes, and for what is left behind them; and two
/// tokens never have the same text.
pub proof fn law_base64_texts_are_apart(a: Seq<u8>, b: Seq<u8>)
    ensures
        base64_text(a).len() == (a.len() + 2) / 3 * 4,
        base64_text(a) == base64_text(b) ==> a == b,
{
    lemma_base64_length(a);
    if base64_text(a) == base64_text(b) {
        lemma_base64_is_injective(a, b);
    }
}

proof fn lemma_base64_length(a: Seq<u8>)
    ensures
        base64_text(a).len() == (a.len() + 2) / 3 * 4,
    decreases a.len(),
{
    if a.len() >= 3 {
        lemma_base64_length(a.skip(3));
    }
}

proof fn lemma_base64_digit(n: int)
    requires
        0 <= n < 64,
    ensures
        base64_digit(n) != '=',
        forall|m: int| 0 <= m < 64 && #[trigger] base64_digit(m) == base64_digit(n) ==> m == n,
{
}

/// The digits of three bytes, of which those that are not there are 0.
spec fn digits_of(a: u8, b: u8, c: u8) -> (int, int, int, int) {
    (
        a as int / 4,
        a as int % 4 * 16 + b as int / 16,
        b as int % 16 * 4 + c as int / 64,
        c as int % 64,
    )
}

proof fn lemma_digits_are_apart(a: u8, b: u8, c: u8, x: u8, y: u8, z: u8)
    ensures
        digits_of(a, b, c) == digits_of(x, y, z) ==> a == x && b == y && c == z,
        ({
            let d = digits_of(a, b, c);
            0 <= d.0 < 64 && 0 <= d.1 < 64 && 0 <= d.2 < 64 && 0 <= d.3 < 64
        }),
{
}

proof fn lemma_same_digits(a: u8, b: u8, c: u8, x: u8, y: u8, z: u8)
    requires
        ({
            let d = digits_of(a, b, c);
            let e = digits_of(x, y, z);
            &&& base64_digit(d.0) == base64_digit(e.0)
            &&& base64_digit(d.1) == base64_digit(e.1)
            &&& base64_digit(d.2) == base64_digit(e.2)
            &&& base64_digit(d.3) == base64_digit(e.3)
        }),
    ensures
        a == x,
        b == y,
        c == z,
{
    let d = digits_of(a, b, c);
    lemma_digits_are_apart(a, b, c, x, y, z);
    lemma_digits_are_apart(x, y, z, a, b, c);
    lemma_base64_digit(d.0);
    lemma_base64_digit(d.1);
    lemma_base64_digit(d.2);
    lemma_base64_digit(d.3);
}

/// The byte at `i`, or 0 behind the last.
spec fn byte_at(bytes: Seq<u8>, i: int) -> u8 {
    if i < bytes.len() {
        bytes[i]
    } else {
        0
    }
}

proof fn lemma_first_digits(bytes: Seq<u8>)
    requires
        bytes.len() > 0,
    ensures
        ({
            let s = base64_text(bytes);
            let d = digits_of(byte_at(bytes, 0), byte_at(bytes, 1), byte_at(bytes, 2));
            &&& s.len() >= 4
            &&& s[0] == base64_digit(d.0)
            &&& s[1] == base64_digit(d.1)
            &&& if bytes.len() == 1 {
                s[2] == '=' && d.2 == 0
            } else {
                s[2] == base64_digit(d.2) && s[2] != '='
            }
            &&& if bytes.len() < 3 {
                s[3] == '=' && d.3 == 0 && s.len() == 4
            } else {
                s[3] == base64_digit(d.3) && s[3] != '=' && s.skip(4) == base64_text(bytes.skip(3))
            }
        }),
{
    let a = byte_at(bytes, 0);
    let b = byte_at(bytes, 1);
    let c = byte_at(bytes, 2);
    let d = digits_of(a, b, c);
    lemma_digits_are_apart(a, b, c, a, b, c);
    lemma_base64_digit(d.2);
    lemma_base64_digit(d.3);
    if bytes.len() >= 3 {
        let first = seq![
            base64_digit(d.0),
            base64_digit(d.1),
            base64_digit(d.2),
            base64_digit(d.3),
        ];
        assert(base64_text(bytes) == first + base64_text(bytes.skip(3)));
        assert((first + base64_text(bytes.skip(3))).skip(4) == base64_text(bytes.skip(3)));
    }
}

proof fn lemma_base64_is_injective(a: Seq<u8>, b: Seq<u8>)
    requires
        base64_text(a) == base64_text(b),
    ensures
        a == b,
    decreases a.len(),
{
    lemma_base64_length(a);
    lemma_base64_length(b);
    if a.len() == 0 {
        assert(a == b);
    } else {
        lemma_first_digits(a);
        lemma_first_digits(b);
        lemma_same_digits(
            byte_at(a, 0),
            byte_at(a, 1),
            byte_at(a, 2),
            byte_at(b, 0),
            byte_at(b, 1),
            byte_at(b, 2),
        );
        if a.len() >= 3 {
            lemma_base64_is_injective(a.skip(3), b.skip(3));
            assert(a == seq![a[0], a[1], a[2]] + a.skip(3));
            assert(b == seq![b[0], b[1], b[2]] + b.skip(3));
        } else {
            assert(a == b);
        }
    }
}

/// A token is given exactly where one was made, as its base64 text; and an error is given as it came.
pub proof fn law_outcome_is_encoded(token: Vec<u8>, cause: String)
    ensures
        encoded(Ok(token)) == Ok::<_, TokenError<Seq<char>>>(base64_text(token@)),
        encoded(Err(TokenError::Generate(cause))) == Err::<Seq<char>, _>(
            TokenError::Generate(cause@),
        ),
        encoded(Err(TokenError::Serialize(cause))) == Err::<Seq<char>, _>(
            TokenError::Serialize(cause@),
        ),
{
}

/// A text that is a connect token is the base64 text of 2048 bytes that grant this very connection: to
/// this address, under this protocol id, for this client, sealed with this key.
pub proof fn law_connect_token_grants_the_connection(
    text: Seq<char>,
    address: Seq<char>,
    protocol_id: u64,
    client_id: u64,
    private_key: Seq<u8>,
)
    requires
        is_connect_token(text, address, protocol_id, client_id, private_key),
    ensures
        exists|token: Seq<u8>|
            {
                &&& token.len() == 2048
                &&& text == base64_text(token)
                &&& #[trigger] grants_connection(
                    token,
                    address,
                    protocol_id,
                    client_id,
                    private_key,
                )
            },
{
}

/// And the base64 text of such bytes is one.
pub proof fn law_granting_bytes_are_a_token(
    token: Seq<u8>,
    address: Seq<char>,
    protocol_id: u64,
    client_id: u64,
    private_key: Seq<u8>,
)
    requires
        token.len() == 2048,
        grants_connection(token, address, protocol_id, client_id, private_key),
    ensures
        is_connect_token(base64_text(token), address, protocol_id, client_id, private_key),
        PRIVATE_KEY_BYTES == 32,
{
}

} // verus!
