//! Private keys as text: numbers with commas between them, or hex digits.
use crate::text;
use crate::text_laws;
use crate::token;
use vstd::prelude::*;
use vstd::string::*;
use vstd::utf8::*;

verus! {

/// Why a private key cannot be read.
#[derive(Debug, Clone, Copy, PartialEq, Eq)]
pub enum KeyError {
    /// One of the numbers is above 255.
    Number,
    /// There are not 32 numbers.
    Count,
    /// There are not 64 bytes of hex text.
    HexLength,
    /// Two bytes of the hex text are not a text of their own.
    NotUtf8,
    /// Two bytes of the hex text are not a number.
    Hex,
}

impl KeyError {
    /// What to stop with.
    pub fn message(&self) -> (r: &'static str)
        ensures
            r@ == (match *self {
                KeyError::Number => "Failed to parse number in private key"@,
                KeyError::Count => "Private key must contain exactly 32 numbers"@,
                KeyError::HexLength => "Hex private key must contain exactly 64 hex characters"@,
                KeyError::NotUtf8 => "private key is not utf8"@,
                KeyError::Hex => "Failed to parse hex private key"@,
            }),
    {
        match self {
            KeyError::Number => "Failed to parse number in private key",
            KeyError::Count => "Private key must contain exactly 32 numbers",
            KeyError::HexLength => "Hex private key must contain exactly 64 hex characters",
            KeyError::NotUtf8 => "private key is not utf8",
            KeyError::Hex => "Failed to parse hex private key",
        }
    }
}

/// What came of reading a key.
pub open spec fn key_result(result: Result<[u8; token::PRIVATE_KEY_BYTES], KeyError>) -> Result<
    Seq<u8>,
    KeyError,
> {
    match result {
        Ok(key) => Ok(key@),
        Err(error) => Err(error),
    }
}

/// The key for development: all zero.
pub open spec fn zero_key() -> Seq<u8> {
    Seq::new(token::PRIVATE_KEY_BYTES as nat, |i: int| 0u8)
}

/// A character that counts in a key of numbers.
pub open spec fn is_key_char(c: char) -> bool {
    text::is_digit(c) || c == ','
}

/// The numbers in the text of a key: what stands between commas, where something does. Other
/// characters than digits and commas do not count.
pub open spec fn key_numbers(value: Seq<char>) -> Seq<Seq<char>> {
    text::split(value.filter(|c: char| is_key_char(c)), ',').filter(|p: Seq<char>| p.len() > 0)
}

/// The byte that digits stand for.
pub open spec fn byte_of(digits: Seq<char>) -> Option<nat> {
    text::parsed_unsigned(digits, u8::MAX as nat)
}

/// The key that numbers with commas between them stand for.
pub open spec fn comma_key(value: Seq<char>) -> Result<Seq<u8>, KeyError> {
    let numbers = key_numbers(value);
    if exists|i: int| 0 <= i < numbers.len() && byte_of(#[trigger] numbers[i]) is None {
        Err(KeyError::Number)
    } else if numbers.len() != token::PRIVATE_KEY_BYTES {
        Err(KeyError::Count)
    } else {
        Ok(numbers.map_values(|p: Seq<char>| byte_of(p)->0 as u8))
    }
}

/// The value of a hex digit.
pub open spec fn hex_value(c: char) -> Option<nat> {
    if text::is_digit(c) {
        Some((c as nat - '0' as nat) as nat)
    } else if 'a' <= c <= 'f' {
        Some((c as nat - 'a' as nat + 10) as nat)
    } else if 'A' <= c <= 'F' {
        Some((c as nat - 'A' as nat + 10) as nat)
    } else {
        None
    }
}

/// The byte that a text of one or two characters is in hex: two digits, or one behind an optional
/// `+`.
pub open spec fn hex_byte(s: Seq<char>) -> Option<nat> {
    if s.len() == 2 && s[0] != '+' {
        match (hex_value(s[0]), hex_value(s[1])) {
            (Some(high), Some(low)) => Some(high * 16 + low),
            _ => None,
        }
    } else if s.len() == 2 {
        hex_value(s[1])
    } else if s.len() == 1 {
        hex_value(s[0])
    } else {
        None
    }
}

/// The byte that two bytes of text are in hex.
pub open spec fn hex_pair(pair: Seq<u8>) -> Result<u8, KeyError> {
    if !valid_utf8(pair) {
        Err(KeyError::NotUtf8)
    } else {
        match hex_byte(decode_utf8(pair)) {
            Some(n) => Ok(n as u8),
            None => Err(KeyError::Hex),
        }
    }
}

/// What the first `n` pairs of `bytes` are in hex. The first pair that is not a byte decides the
/// error.
pub open spec fn hex_bytes(bytes: Seq<u8>, n: nat) -> Result<Seq<u8>, KeyError>
    decreases n,
{
    if n == 0 {
        Ok(Seq::empty())
    } else {
        match hex_bytes(bytes, (n - 1) as nat) {
            Ok(done) => match hex_pair(bytes.subrange(2 * n - 2, 2 * n as int)) {
                Ok(byte) => Ok(done.push(byte)),
                Err(error) => Err(error),
            },
            Err(error) => Err(error),
        }
    }
}

/// The hex digits in the text of a key: what is behind `0x`, where that is there.
pub open spec fn hex_digits(value: Seq<char>) -> Seq<char> {
    let trimmed = text::trimmed(value);
    if trimmed.len() >= 2 && trimmed[0] == '0' && trimmed[1] == 'x' {
        trimmed.skip(2)
    } else {
        trimmed
    }
}

/// The key that hex digits stand for.
pub open spec fn hex_key(value: Seq<char>) -> Result<Seq<u8>, KeyError> {
    let bytes = encode_utf8(hex_digits(value));
    if bytes.len() != token::PRIVATE_KEY_BYTES * 2 {
        Err(KeyError::HexLength)
    } else {
        hex_bytes(bytes, token::PRIVATE_KEY_BYTES as nat)
    }
}

/// The key that a text stands for: the key for development where it is blank, numbers where it
/// holds a comma, and else hex digits.
pub open spec fn key_in(value: Seq<char>) -> Result<Seq<u8>, KeyError> {
    if text::is_blank(value) {
        Ok(zero_key())
    } else if value.contains(',') {
        comma_key(value)
    } else {
        hex_key(value)
    }
}

/// The text of the key: the setting, where it is not blank; else the variable, where it is set; else
/// the legacy variable, where it is set.
pub open spec fn key_text(
    setting: Seq<char>,
    private_key: Option<Seq<char>>,
    legacy_key: Option<Seq<char>>,
) -> Seq<char> {
    if !text::is_blank(setting) {
        setting
    } else {
        match (private_key, legacy_key) {
            (Some(value), _) => value,
            (None, Some(value)) => value,
            (None, None) => Seq::empty(),
        }
    }
}

fn to_key(bytes: &Vec<u8>) -> (r: [u8; token::PRIVATE_KEY_BYTES])
    requires
        bytes@.len() == token::PRIVATE_KEY_BYTES,
    ensures
        r@ == bytes@,
{
    let mut key: [u8; token::PRIVATE_KEY_BYTES] = [0u8; token::PRIVATE_KEY_BYTES];
    let mut i: usize = 0;
    while i < token::PRIVATE_KEY_BYTES
        invariant
            i <= token::PRIVATE_KEY_BYTES,
            bytes@.len() == token::PRIVATE_KEY_BYTES,
            forall|j: int| 0 <= j < i ==> key@[j] == bytes@[j],
        decreases token::PRIVATE_KEY_BYTES - i,
    {
        key[i] = bytes[i];
        i += 1;
    }
    assert(key@ == bytes@);
    key
}

fn key_char(c: char) -> (r: bool)
    ensures
        r == is_key_char(c),
{
    text::digit(c) || c == ','
}

/// The key that numbers with commas between them stand for.
pub fn parse_comma_private_key(value: &str) -> (r: Result<
    [u8; token::PRIVATE_KEY_BYTES],
    KeyError,
>)
    ensures
        key_result(r) == comma_key(value@),
{
    let key_chars = text::keep_chars(value, key_char, Ghost(|c: char| is_key_char(c)));
    let pieces = text::split_on(key_chars.as_str(), ',');
    let ghost all = text::texts(pieces@);
    let ghost some = |p: Seq<char>| p.len() > 0;
    let ghost read = |p: Seq<char>| byte_of(p)->0 as u8;
    let ghost numbers = key_numbers(value@);
    assert(numbers == all.filter(some));
    let mut bytes: Vec<u8> = Vec::new();
    let mut i: usize = 0;
    assert(all.take(0).filter(some) == Seq::<Seq<char>>::empty()) by {
        reveal(Seq::filter);
    }
    assert(bytes@ == all.take(0).filter(some).map_values(read));
    while i < pieces.len()
        invariant
            i <= pieces@.len(),
            all == text::texts(pieces@),
            some == (|p: Seq<char>| p.len() > 0),
            read == (|p: Seq<char>| byte_of(p)->0 as u8),
            numbers == key_numbers(value@),
            numbers == all.filter(some),
            bytes@ == all.take(i as int).filter(some).map_values(read),
            forall|j: int|
                0 <= j < all.take(i as int).filter(some).len() ==> byte_of(
                    #[trigger] all.take(i as int).filter(some)[j],
                ) is Some,
        decreases pieces@.len() - i,
    {
        let ghost before = all.take(i as int).filter(some);
        let ghost piece = all[i as int];
        assert(all.take(i + 1).drop_last() == all.take(i as int));
        assert(all.take(i + 1).filter(some) == (if some(piece) {
            before.push(piece)
        } else {
            before
        })) by {
            reveal(Seq::filter);
        }
        assert(piece == pieces@[i as int]@);
        if !pieces[i].as_str().is_empty() {
            match text::parse_unsigned(pieces[i].as_str(), 255) {
                Some(n) => {
                    bytes.push(n as u8);
                    assert(before.push(piece).map_values(read) == before.map_values(read).push(
                        read(piece),
                    ));
                },
                None => {
                    proof {
                        all.lemma_filter_contains(some, i as int);
                        let k = choose|k: int| 0 <= k < numbers.len() && numbers[k] == piece;
                        assert(byte_of(numbers[k]) is None);
                    }
                    return Err(KeyError::Number);
                },
            }
        }
        i += 1;
    }
    assert(all.take(all.len() as int) == all);
    if bytes.len() != token::PRIVATE_KEY_BYTES {
        return Err(KeyError::Count);
    }
    Ok(to_key(&bytes))
}

fn hex_digit(c: char) -> (r: Option<u8>)
    ensures
        r matches Some(n) ==> hex_value(c) == Some(n as nat) && n < 16,
        r is None ==> hex_value(c) is None,
{
    if text::digit(c) {
        Some(c as u8 - 48)
    } else if 'a' <= c && c <= 'f' {
        Some(c as u8 - 87)
    } else if 'A' <= c && c <= 'F' {
        Some(c as u8 - 55)
    } else {
        None
    }
}

fn parse_hex_byte(s: &str) -> (r: Option<u8>)
    ensures
        r matches Some(n) ==> hex_byte(s@) == Some(n as nat),
        r is None ==> hex_byte(s@) is None,
{
    let chars = text::chars_of(s);
    if chars.len() == 2 && chars[0] != '+' {
        match (hex_digit(chars[0]), hex_digit(chars[1])) {
            (Some(high), Some(low)) => Some(high * 16 + low),
            _ => None,
        }
    } else if chars.len() == 2 {
        hex_digit(chars[1])
    } else if chars.len() == 1 {
        hex_digit(chars[0])
    } else {
        None
    }
}

fn strip_hex_prefix(value: &str) -> (r: String)
    ensures
        r@ == hex_digits(value@),
{
    let trimmed = text::trim(value);
    let chars = text::chars_of(trimmed.as_str());
    if chars.len() >= 2 && chars[0] == '0' && chars[1] == 'x' {
        let digits = text::string_of(&chars, 2, chars.len());
        assert(digits@ == trimmed@.skip(2));
        digits
    } else {
        trimmed
    }
}

proof fn lemma_hex_error_stays(bytes: Seq<u8>, m: nat, n: nat)
    requires
        m <= n,
        hex_bytes(bytes, m) is Err,
    ensures
        hex_bytes(bytes, n) == hex_bytes(bytes, m),
    decreases n,
{
    if m < n {
        lemma_hex_error_stays(bytes, m, (n - 1) as nat);
    }
}

/// The key that hex digits stand for.
pub fn parse_hex_private_key(value: &str) -> (r: Result<[u8; token::PRIVATE_KEY_BYTES], KeyError>)
    ensures
        key_result(r) == hex_key(value@),
{
    let digits = strip_hex_prefix(value);
    let text_bytes = digits.as_str().as_bytes();
    if text_bytes.len() != token::PRIVATE_KEY_BYTES * 2 {
        return Err(KeyError::HexLength);
    }
    let mut bytes: Vec<u8> = Vec::new();
    let mut i: usize = 0;
    while i < token::PRIVATE_KEY_BYTES
        invariant
            i <= token::PRIVATE_KEY_BYTES,
            text_bytes@ == encode_utf8(hex_digits(value@)),
            text_bytes@.len() == token::PRIVATE_KEY_BYTES * 2,
            bytes@.len() == i,
            hex_bytes(text_bytes@, i as nat) == Ok::<Seq<u8>, KeyError>(bytes@),
        decreases token::PRIVATE_KEY_BYTES - i,
    {
        let mut pair: Vec<u8> = Vec::new();
        pair.push(text_bytes[2 * i]);
        pair.push(text_bytes[2 * i + 1]);
        assert(pair@ == text_bytes@.subrange(2 * i, 2 * i + 2));
        match text::decode_utf8_bytes(pair) {
            Ok(hex) => match parse_hex_byte(hex.as_str()) {
                Some(byte) => {
                    bytes.push(byte);
                },
                None => {
                    proof {
                        lemma_hex_error_stays(
                            text_bytes@,
                            (i + 1) as nat,
                            token::PRIVATE_KEY_BYTES as nat,
                        );
                    }
                    return Err(KeyError::Hex);
                },
            },
            Err(_) => {
                proof {
                    lemma_hex_error_stays(
                        text_bytes@,
                        (i + 1) as nat,
                        token::PRIVATE_KEY_BYTES as nat,
                    );
                }
                return Err(KeyError::NotUtf8);
            },
        }
        i += 1;
    }
    Ok(to_key(&bytes))
}

/// Whether a key is the one for development.
pub fn is_zero(key: &[u8; token::PRIVATE_KEY_BYTES]) -> (r: bool)
    ensures
        r == (key@ == zero_key()),
{
    let mut i: usize = 0;
    while i < token::PRIVATE_KEY_BYTES
        invariant
            i <= token::PRIVATE_KEY_BYTES,
            forall|j: int| 0 <= j < i ==> key@[j] == 0,
        decreases token::PRIVATE_KEY_BYTES - i,
    {
        if key[i] != 0 {
            assert(key@[i as int] != zero_key()[i as int]);
            return false;
        }
        i += 1;
    }
    assert(key@ == zero_key());
    true
}

// ---------------------------------------------------------------------------
// Laws
// ---------------------------------------------------------------------------

/// A key that is read has 32 bytes.
pub proof fn law_keys_have_their_length(value: Seq<char>)
    ensures
        key_in(value) matches Ok(key) ==> key.len() == token::PRIVATE_KEY_BYTES,
{
    lemma_hex_length(encode_utf8(hex_digits(value)), token::PRIVATE_KEY_BYTES as nat);
}

proof fn lemma_hex_length(bytes: Seq<u8>, n: nat)
    ensures
        hex_bytes(bytes, n) matches Ok(key) ==> key.len() == n,
    decreases n,
{
    if n > 0 {
        lemma_hex_length(bytes, (n - 1) as nat);
    }
}

/// The numbers of a key, with commas between them.
pub open spec fn comma_text(key: Seq<u8>) -> Seq<char> {
    text::joined(key.map_values(|b: u8| text::decimal(b as nat)), ","@)
}

proof fn lemma_filter_keeps_all<A>(s: Seq<A>, keep: spec_fn(A) -> bool)
    requires
        forall|i: int| 0 <= i < s.len() ==> keep(#[trigger] s[i]),
    ensures
        s.filter(keep) == s,
    decreases s.len(),
{
    reveal(Seq::filter);
    if s.len() > 0 {
        lemma_filter_keeps_all(s.drop_last(), keep);
        assert(s.drop_last().push(s.last()) == s);
    }
}

spec fn all_key_chars(s: Seq<char>) -> bool {
    forall|i: int| 0 <= i < s.len() ==> is_key_char(#[trigger] s[i])
}

proof fn lemma_joined_key_chars(pieces: Seq<Seq<char>>)
    requires
        forall|i: int| 0 <= i < pieces.len() ==> all_key_chars(#[trigger] pieces[i]),
    ensures
        all_key_chars(text::joined(pieces, ","@)),
    decreases pieces.len(),
{
    reveal_strlit(",");
    if pieces.len() > 0 {
        assert(all_key_chars(pieces[pieces.len() - 1]));
    }
    if pieces.len() > 1 {
        let rest = pieces.drop_last();
        assert forall|i: int| 0 <= i < rest.len() implies all_key_chars(#[trigger] rest[i]) by {
            assert(rest[i] == pieces[i]);
        }
        lemma_joined_key_chars(rest);
    }
}

proof fn lemma_comma_pieces(key: Seq<u8>)
    ensures
        ({
            let pieces = key.map_values(|b: u8| text::decimal(b as nat));
            forall|i: int|
                0 <= i < pieces.len() ==> {
                    &&& (#[trigger] pieces[i]).len() > 0
                    &&& all_key_chars(pieces[i])
                    &&& !pieces[i].contains(',')
                    &&& byte_of(pieces[i]) == Some(key[i] as nat)
                }
        }),
{
    let pieces = key.map_values(|b: u8| text::decimal(b as nat));
    assert forall|i: int| 0 <= i < pieces.len() implies {
        &&& (#[trigger] pieces[i]).len() > 0
        &&& all_key_chars(pieces[i])
        &&& !pieces[i].contains(',')
        &&& byte_of(pieces[i]) == Some(key[i] as nat)
    } by {
        text::lemma_decimal_is_digits(key[i] as nat);
        text::law_decimal_reads_back(key[i] as nat, u8::MAX as nat);
    }
}

proof fn lemma_comma_numbers(key: Seq<u8>)
    requires
        key.len() > 0,
    ensures
        all_key_chars(comma_text(key)),
        key_numbers(comma_text(key)) == key.map_values(|b: u8| text::decimal(b as nat)),
{
    let pieces = key.map_values(|b: u8| text::decimal(b as nat));
    lemma_comma_pieces(key);
    lemma_joined_key_chars(pieces);
    lemma_filter_keeps_all(comma_text(key), |c: char| is_key_char(c));
    assert(","@ == seq![',']) by {
        reveal_strlit(",");
    }
    text::law_split_undoes_join(pieces, ',');
    lemma_filter_keeps_all(pieces, |p: Seq<char>| p.len() > 0);
}

/// A key that is written as numbers with commas between them reads back as it was.
pub proof fn law_comma_keys_read_back(key: Seq<u8>)
    requires
        key.len() == token::PRIVATE_KEY_BYTES,
    ensures
        comma_key(comma_text(key)) == Ok::<Seq<u8>, KeyError>(key),
        key_in(comma_text(key)) == Ok::<Seq<u8>, KeyError>(key),
{
    let pieces = key.map_values(|b: u8| text::decimal(b as nat));
    let value = comma_text(key);
    lemma_comma_pieces(key);
    lemma_comma_numbers(key);
    assert(pieces.map_values(|p: Seq<char>| byte_of(p)->0 as u8) == key);
    assert(comma_key(value) == Ok::<Seq<u8>, KeyError>(key));
    let start = text::joined(pieces.drop_last(), ","@);
    assert(value == start + ","@ + pieces.last());
    assert(value[start.len() as int] == ',') by {
        reveal_strlit(",");
    }
    assert(is_key_char(value[0]));
    assert(is_key_char(value[value.len() - 1]));
    assert(text::trim_start(value) == value);
    assert(text::trim_end(value) == value);
}

/// The numbers of a key as an array of them is shown: in brackets, with a comma and a space between
/// each two.
pub open spec fn array_text(key: Seq<u8>) -> Seq<char> {
    "["@ + text::joined(key.map_values(|b: u8| text::decimal(b as nat)), ", "@) + "]"@
}

proof fn lemma_key_chars_of_joined(pieces: Seq<Seq<char>>)
    requires
        forall|i: int| 0 <= i < pieces.len() ==> all_key_chars(#[trigger] pieces[i]),
    ensures
        text::joined(pieces, ", "@).filter(|c: char| is_key_char(c)) == text::joined(pieces, ","@),
    decreases pieces.len(),
{
    let keep = |c: char| is_key_char(c);
    if pieces.len() == 0 {
        reveal(Seq::filter);
    } else {
        assert(all_key_chars(pieces[pieces.len() - 1]));
        lemma_filter_keeps_all(pieces.last(), keep);
        if pieces.len() > 1 {
            let rest = pieces.drop_last();
            assert forall|i: int| 0 <= i < rest.len() implies all_key_chars(#[trigger] rest[i]) by {
                assert(rest[i] == pieces[i]);
            }
            lemma_key_chars_of_joined(rest);
            let start = text::joined(rest, ", "@);
            Seq::filter_distributes_over_add(start + ", "@, pieces.last(), keep);
            Seq::filter_distributes_over_add(start, ", "@, keep);
            assert(", "@.filter(keep) == ","@) by {
                reveal_strlit(", ");
                reveal_strlit(",");
                reveal_with_fuel(Seq::filter, 3);
                assert(", "@.drop_last() == ","@);
                assert(","@.drop_last() == Seq::<char>::empty());
                assert(Seq::<char>::empty().push(',') == ","@);
            }
        }
    }
}

proof fn lemma_filter_is_part(s: Seq<char>, keep: spec_fn(char) -> bool, c: char)
    requires
        s.filter(keep).contains(c),
    ensures
        s.contains(c),
    decreases s.len(),
{
    reveal(Seq::filter);
    if s.len() > 0 {
        let kept = s.filter(keep);
        let i = choose|i: int| 0 <= i < kept.len() && kept[i] == c;
        let rest = s.drop_last().filter(keep);
        if i < rest.len() {
            assert(rest[i] == c);
            lemma_filter_is_part(s.drop_last(), keep, c);
            let j = choose|j: int| 0 <= j < s.len() - 1 && s.drop_last()[j] == c;
            assert(s[j] == c);
        } else {
            assert(s[s.len() - 1] == c);
        }
    }
}

proof fn lemma_comma_text_has_comma(key: Seq<u8>)
    requires
        key.len() > 1,
    ensures
        comma_text(key).contains(','),
{
    let pieces = key.map_values(|b: u8| text::decimal(b as nat));
    let start = text::joined(pieces.drop_last(), ","@);
    assert(comma_text(key) == start + ","@ + pieces.last());
    assert(comma_text(key)[start.len() as int] == ',') by {
        reveal_strlit(",");
    }
}

proof fn lemma_numbers_decide(a: Seq<char>, b: Seq<char>)
    requires
        key_numbers(a) == key_numbers(b),
    ensures
        comma_key(a) == comma_key(b),
{
}

proof fn lemma_key_chars_decide(a: Seq<char>, b: Seq<char>)
    requires
        a.filter(|c: char| is_key_char(c)) == b,
        all_key_chars(b),
    ensures
        key_numbers(a) == key_numbers(b),
{
    lemma_filter_keeps_all(b, |c: char| is_key_char(c));
}

/// Other characters than digits and commas do not count: a text whose digits and commas are those of
/// a key reads as that key.
pub proof fn law_other_characters_do_not_count(value: Seq<char>, key: Seq<u8>)
    requires
        key.len() == token::PRIVATE_KEY_BYTES,
        value.filter(|c: char| is_key_char(c)) == comma_text(key),
    ensures
        comma_key(value) == Ok::<Seq<u8>, KeyError>(key),
        key_in(value) == Ok::<Seq<u8>, KeyError>(key),
{
    assert(comma_key(value) == Ok::<Seq<u8>, KeyError>(key)) by {
        law_comma_keys_read_back(key);
        lemma_comma_numbers(key);
        lemma_key_chars_decide(value, comma_text(key));
        lemma_numbers_decide(value, comma_text(key));
    }
    assert(value.contains(',')) by {
        lemma_comma_text_has_comma(key);
        lemma_filter_is_part(value, |c: char| is_key_char(c), ',');
    }
    assert(!text::is_blank(value)) by {
        text::lemma_trimmed_keeps(value, ',');
    }
}

/// A key that is written as an array is shown reads back as it was.
pub proof fn law_array_keys_read_back(key: Seq<u8>)
    requires
        key.len() == token::PRIVATE_KEY_BYTES,
    ensures
        comma_key(array_text(key)) == Ok::<Seq<u8>, KeyError>(key),
        key_in(array_text(key)) == Ok::<Seq<u8>, KeyError>(key),
{
    let keep = |c: char| is_key_char(c);
    let pieces = key.map_values(|b: u8| text::decimal(b as nat));
    let inner = text::joined(pieces, ", "@);
    let value = array_text(key);
    lemma_comma_pieces(key);
    lemma_key_chars_of_joined(pieces);
    Seq::filter_distributes_over_add("["@ + inner, "]"@, keep);
    Seq::filter_distributes_over_add("["@, inner, keep);
    reveal_strlit("[");
    reveal_strlit("]");
    assert("["@.filter(keep) == Seq::<char>::empty() && "]"@.filter(keep) == Seq::<char>::empty())
        by {
        reveal_with_fuel(Seq::filter, 2);
        assert("["@.drop_last() == Seq::<char>::empty());
        assert("]"@.drop_last() == Seq::<char>::empty());
    }
    assert(value.filter(keep) == comma_text(key));
    law_other_characters_do_not_count(value, key);
}

/// The hex digit of `n`.
pub open spec fn hex_char(n: int) -> char {
    if n < 10 {
        ('0' as int + n) as char
    } else {
        ('a' as int + n - 10) as char
    }
}

/// The hex digits of a key, two for each byte.
pub open spec fn hex_text(key: Seq<u8>) -> Seq<char> {
    Seq::new(
        2 * key.len(),
        |i: int|
            if i % 2 == 0 {
                hex_char(key[i / 2] as int / 16)
            } else {
                hex_char(key[i / 2] as int % 16)
            },
    )
}

proof fn lemma_hex_char(n: int)
    requires
        0 <= n < 16,
    ensures
        hex_value(hex_char(n)) == Some(n as nat),
        (hex_char(n) as int) < 128,
        !text::is_white_space(hex_char(n)),
        hex_char(n) != 'x',
        hex_char(n) != ',',
        hex_char(n) != '+',
{
}

proof fn lemma_hex_text_chars(key: Seq<u8>)
    ensures
        forall|i: int|
            0 <= i < hex_text(key).len() ==> {
                let c = #[trigger] hex_text(key)[i];
                (c as int) < 128 && !text::is_white_space(c) && c != 'x' && c != ',' && c != '+'
            },
{
    assert forall|i: int| 0 <= i < hex_text(key).len() implies {
        let c = #[trigger] hex_text(key)[i];
        (c as int) < 128 && !text::is_white_space(c) && c != 'x' && c != ',' && c != '+'
    } by {
        lemma_hex_char(key[i / 2] as int / 16);
        lemma_hex_char(key[i / 2] as int % 16);
    }
}

proof fn lemma_hex_pair_reads_back(byte: u8)
    ensures
        ({
            let digits = seq![hex_char(byte as int / 16), hex_char(byte as int % 16)];
            hex_pair(encode_utf8(digits)) == Ok::<u8, KeyError>(byte)
        }),
{
    let digits = seq![hex_char(byte as int / 16), hex_char(byte as int % 16)];
    lemma_hex_char(byte as int / 16);
    lemma_hex_char(byte as int % 16);
    encode_utf8_valid_utf8(digits);
    encode_utf8_decode_utf8(digits);
}

proof fn lemma_hex_text_reads_back(key: Seq<u8>, n: nat)
    requires
        n <= key.len(),
    ensures
        hex_bytes(encode_utf8(hex_text(key)), n) == Ok::<Seq<u8>, KeyError>(key.take(n as int)),
    decreases n,
{
    let bytes = encode_utf8(hex_text(key));
    if n == 0 {
        assert(key.take(0) == Seq::<u8>::empty());
    } else {
        lemma_hex_text_reads_back(key, (n - 1) as nat);
        let byte = key[n - 1];
        let digits = seq![hex_char(byte as int / 16), hex_char(byte as int % 16)];
        lemma_hex_text_chars(key);
        is_ascii_chars_encode_utf8(hex_text(key));
        lemma_hex_char(byte as int / 16);
        lemma_hex_char(byte as int % 16);
        is_ascii_chars_encode_utf8(digits);
        assert(hex_text(key)[2 * n - 2] == digits[0]);
        assert(hex_text(key)[2 * n - 1] == digits[1]);
        assert(bytes.subrange(2 * n - 2, 2 * n as int) == encode_utf8(digits));
        lemma_hex_pair_reads_back(byte);
        assert(key.take(n as int) == key.take(n - 1).push(byte));
    }
}

/// A key that is written as hex digits reads back as it was, with or without `0x` before them.
pub proof fn law_hex_keys_read_back(key: Seq<u8>)
    requires
        key.len() == token::PRIVATE_KEY_BYTES,
    ensures
        hex_key(hex_text(key)) == Ok::<Seq<u8>, KeyError>(key),
        key_in(hex_text(key)) == Ok::<Seq<u8>, KeyError>(key),
        key_in("0x"@ + hex_text(key)) == Ok::<Seq<u8>, KeyError>(key),
{
    let value = hex_text(key);
    let prefixed = "0x"@ + value;
    reveal_strlit("0x");
    lemma_hex_text_chars(key);
    lemma_hex_text_reads_back(key, key.len());
    is_ascii_chars_encode_utf8(value);
    assert(key.take(key.len() as int) == key);
    assert(!text::is_white_space(value[0]) && value[1] != 'x');
    assert(!text::is_white_space(value[value.len() - 1]));
    assert(text::trimmed(value) == value);
    assert(prefixed[0] == '0' && prefixed[1] == 'x');
    assert(prefixed[prefixed.len() - 1] == value[value.len() - 1]);
    assert(text::trimmed(prefixed) == prefixed);
    assert(prefixed.skip(2) == value);
    assert(!value.contains(','));
    assert(!prefixed.contains(',')) by {
        assert forall|i: int| 0 <= i < prefixed.len() implies prefixed[i] != ',' by {
            if i >= 2 {
                assert(prefixed[i] == value[i - 2]);
            }
        }
    }
}

/// The hex digits are `0` to `9`, `a` to `f` and `A` to `F`, with the values 0 to 15, and no other
/// character is one.
pub proof fn law_hex_digit_values(c: char)
    ensures
        '0' <= c <= '9' ==> hex_value(c) == Some((c as int - 0x30) as nat),
        'a' <= c <= 'f' ==> hex_value(c) == Some((c as int - 0x61 + 10) as nat),
        'A' <= c <= 'F' ==> hex_value(c) == Some((c as int - 0x41 + 10) as nat),
        !('0' <= c <= '9') && !('a' <= c <= 'f') && !('A' <= c <= 'F') ==> hex_value(c) is None,
{
}

/// `value` is 64 ASCII characters of which none is `+`, a comma or white space, and it does not begin
/// with `0x`.
pub open spec fn is_plain(value: Seq<char>) -> bool {
    &&& value.len() == 64
    &&& !(value[0] == '0' && value[1] == 'x')
    &&& forall|i: int|
        0 <= i < value.len() ==> {
            let c = #[trigger] value[i];
            (c as int) < 128 && c != '+' && c != ',' && !text::is_white_space(c)
        }
}

proof fn lemma_ascii(c: char)
    requires
        (c as int) < 128,
    ensures
        '\0' <= c <= '\u{7f}',
{
}

proof fn lemma_plain_is_ascii(value: Seq<char>)
    requires
        is_plain(value),
    ensures
        encode_utf8(value).len() == 64,
        forall|i: int| 0 <= i < 64 ==> #[trigger] encode_utf8(value)[i] == value[i] as u8,
{
    assert forall|i: int| 0 <= i < value.len() implies '\0' <= #[trigger] value[i] <= '\u{7f}' by {
        lemma_ascii(value[i]);
    }
    is_ascii_chars_encode_utf8(value);
}

proof fn lemma_plain_pair(a: char, b: char)
    requires
        (a as int) < 128,
        (b as int) < 128,
        a != '+',
    ensures
        ({
            let pair = seq![a as u8, b as u8];
            &&& hex_value(a) is Some && hex_value(b) is Some ==> hex_pair(pair) == Ok::<
                u8,
                KeyError,
            >((16 * hex_value(a)->0 + hex_value(b)->0) as u8) && 16 * hex_value(a)->0 + hex_value(
                b,
            )->0 < 256
            &&& hex_value(a) is None || hex_value(b) is None ==> hex_pair(pair) == Err::<
                u8,
                KeyError,
            >(KeyError::Hex)
        }),
{
    let chars = seq![a, b];
    is_ascii_chars_encode_utf8(chars);
    assert(encode_utf8(chars) == seq![a as u8, b as u8]);
    encode_utf8_valid_utf8(chars);
    encode_utf8_decode_utf8(chars);
}

proof fn lemma_plain_bytes(value: Seq<char>, n: nat)
    requires
        is_plain(value),
        n <= 32,
    ensures
        ({
            let read = hex_bytes(encode_utf8(value), n);
            let good = forall|i: int| 0 <= i < 2 * n ==> hex_value(#[trigger] value[i]) is Some;
            &&& good ==> read is Ok && read->Ok_0.len() == n && forall|i: int|
                0 <= i < n ==> #[trigger] read->Ok_0[i] == 16 * hex_value(value[2 * i])->0
                    + hex_value(value[2 * i + 1])->0
            &&& !good ==> read == Err::<Seq<u8>, KeyError>(KeyError::Hex)
        }),
    decreases n,
{
    let bytes = encode_utf8(value);
    lemma_plain_is_ascii(value);
    if n > 0 {
        let m = (n - 1) as nat;
        lemma_plain_bytes(value, m);
        let a = value[2 * n - 2];
        let b = value[2 * n - 1];
        assert(bytes.subrange(2 * n - 2, 2 * n as int) == seq![a as u8, b as u8]);
        lemma_plain_pair(a, b);
        let earlier = forall|i: int| 0 <= i < 2 * m ==> hex_value(#[trigger] value[i]) is Some;
        let good = forall|i: int| 0 <= i < 2 * n ==> hex_value(#[trigger] value[i]) is Some;
        if earlier && hex_value(a) is Some && hex_value(b) is Some {
            assert forall|i: int| 0 <= i < 2 * n implies hex_value(#[trigger] value[i]) is Some by {
                if i >= 2 * m {
                    assert(i == 2 * n - 2 || i == 2 * n - 1);
                }
            }
        } else if !earlier {
            let i = choose|i: int| 0 <= i < 2 * m && !(hex_value(#[trigger] value[i]) is Some);
            assert(hex_value(value[i]) is None);
            assert(!good);
        } else {
            assert(!good);
        }
    }
}

/// A text of 64 hex digits of either case is the key whose bytes are the values of the digits, two by
/// two, whether or not `0x` stands before them or white space around them; and one with another
/// character in it is no key.
pub proof fn law_hex_keys_are_their_digits(before: Seq<char>, value: Seq<char>, after: Seq<char>)
    requires
        is_plain(value),
        text_laws::all_white(before),
        text_laws::all_white(after),
    ensures
        ({
            let plain = key_in(before + value + after);
            let prefixed = key_in(before + (seq!['0', 'x'] + value) + after);
            let good = forall|i: int| 0 <= i < 64 ==> hex_value(#[trigger] value[i]) is Some;
            &&& prefixed == plain
            &&& good ==> plain is Ok && plain->Ok_0.len() == 32 && forall|i: int|
                0 <= i < 32 ==> #[trigger] plain->Ok_0[i] == 16 * hex_value(value[2 * i])->0
                    + hex_value(value[2 * i + 1])->0
            &&& !good ==> plain == Err::<Seq<u8>, KeyError>(KeyError::Hex)
        }),
{
    let whole = before + value + after;
    let signed = seq!['0', 'x'] + value;
    let other = before + signed + after;
    assert(!text::is_white_space(value[0]) && !text::is_white_space(value[63]));
    assert(value.last() == value[63]);
    text_laws::law_trimming_takes_off_white_space(before, value, after);
    assert(signed[0] == '0' && signed.last() == value[63]);
    text_laws::law_trimming_takes_off_white_space(before, signed, after);
    assert(signed.skip(2) == value);
    lemma_no_comma(before, value, after);
    assert forall|i: int| 0 <= i < signed.len() implies #[trigger] signed[i] != ',' by {
        if i >= 2 {
            assert(signed[i] == value[i - 2]);
        }
    }
    lemma_no_comma(before, signed, after);
    lemma_plain_is_ascii(value);
    lemma_plain_bytes(value, 32);
}

proof fn lemma_no_comma(before: Seq<char>, s: Seq<char>, after: Seq<char>)
    requires
        text_laws::all_white(before),
        text_laws::all_white(after),
        forall|i: int| 0 <= i < s.len() ==> #[trigger] s[i] != ',',
    ensures
        !(before + s + after).contains(','),
{
    let whole = before + s + after;
    assert forall|i: int| 0 <= i < whole.len() implies whole[i] != ',' by {
        if i < before.len() {
            assert(text::is_white_space(before[i]));
        } else if i < before.len() + s.len() {
            assert(s[i - before.len()] != ',');
        } else {
            assert(text::is_white_space(after[i - before.len() - s.len()]));
        }
    }
}

/// A text without a comma whose digits do not take 64 bytes is no key, unless it is blank; a blank
/// text is the key of 32 zeros.
pub proof fn law_hex_keys_have_their_length(value: Seq<char>)
    requires
        !value.contains(','),
    ensures
        text::is_blank(value) ==> key_in(value) is Ok && key_in(value)->Ok_0.len() == 32
            && forall|i: int| 0 <= i < 32 ==> #[trigger] key_in(value)->Ok_0[i] == 0,
        !text::is_blank(value) ==> (key_in(value) == Err::<Seq<u8>, KeyError>(KeyError::HexLength)
            <==> encode_utf8(hex_digits(value)).len() != 64),
{
    lemma_hex_errors(encode_utf8(hex_digits(value)), 32);
}

proof fn lemma_hex_errors(bytes: Seq<u8>, n: nat)
    ensures
        hex_bytes(bytes, n) matches Err(error) ==> error == KeyError::Hex || error
            == KeyError::NotUtf8,
    decreases n,
{
    if n > 0 {
        lemma_hex_errors(bytes, (n - 1) as nat);
    }
}

/// Numbers with commas between them are no key where one of them is above 255, nor where there are
/// not 32 of them; else they are the key whose bytes they are.
pub proof fn law_comma_keys_are_their_numbers(numbers: Seq<Seq<char>>)
    requires
        numbers.len() > 1,
        forall|i: int|
            0 <= i < numbers.len() ==> (#[trigger] numbers[i]).len() > 0 && text::is_digits(
                numbers[i],
            ),
    ensures
        ({
            let key = key_in(text::joined(numbers, seq![',']));
            let small = forall|i: int|
                0 <= i < numbers.len() ==> text::digits_value(#[trigger] numbers[i]) <= 255;
            &&& !small ==> key == Err::<Seq<u8>, KeyError>(KeyError::Number)
            &&& small && numbers.len() != 32 ==> key == Err::<Seq<u8>, KeyError>(KeyError::Count)
            &&& small && numbers.len() == 32 ==> key is Ok && key->Ok_0.len() == 32 && forall|
                i: int,
            |
                0 <= i < 32 ==> #[trigger] key->Ok_0[i] == text::digits_value(numbers[i])
        }),
{
    let value = text::joined(numbers, seq![',']);
    lemma_numbers_of_joined(numbers);
    assert(key_in(value) == comma_key(value));
    assert forall|i: int| 0 <= i < numbers.len() implies {
        &&& text::digits_value(#[trigger] numbers[i]) <= 255 ==> byte_of(numbers[i]) == Some(
            text::digits_value(numbers[i]),
        )
        &&& text::digits_value(numbers[i]) > 255 ==> byte_of(numbers[i]) is None
    } by {
        lemma_number(numbers[i]);
    }
    let small = forall|i: int|
        0 <= i < numbers.len() ==> text::digits_value(#[trigger] numbers[i]) <= 255;
    if !small {
        let i = choose|i: int|
            0 <= i < numbers.len() && !(text::digits_value(#[trigger] numbers[i]) <= 255);
        assert(byte_of(numbers[i]) is None);
    }
}

proof fn lemma_number(digits: Seq<char>)
    requires
        digits.len() > 0,
        text::is_digits(digits),
    ensures
        all_key_chars(digits),
        !digits.contains(','),
        text::digits_value(digits) <= 255 ==> byte_of(digits) == Some(text::digits_value(digits)),
        text::digits_value(digits) > 255 ==> byte_of(digits) is None,
{
    assert forall|j: int| 0 <= j < digits.len() implies '0' <= #[trigger] digits[j] <= '9' by {
        assert(text::is_digit(digits[j]));
    }
    text_laws::law_unsigned_numbers(digits, u8::MAX as nat);
}

proof fn lemma_numbers_of_joined(numbers: Seq<Seq<char>>)
    requires
        numbers.len() > 1,
        forall|i: int|
            0 <= i < numbers.len() ==> (#[trigger] numbers[i]).len() > 0 && text::is_digits(
                numbers[i],
            ),
    ensures
        ({
            let value = text::joined(numbers, seq![',']);
            &&& key_numbers(value) == numbers
            &&& value.contains(',')
            &&& !text::is_blank(value)
        }),
{
    let value = text::joined(numbers, seq![',']);
    assert(","@ == seq![',']) by {
        reveal_strlit(",");
    }
    assert forall|i: int| 0 <= i < numbers.len() implies all_key_chars(#[trigger] numbers[i])
        && !numbers[i].contains(',') by {
        lemma_number(numbers[i]);
    }
    assert(key_numbers(value) == numbers) by {
        lemma_joined_key_chars(numbers);
        lemma_filter_keeps_all(value, |c: char| is_key_char(c));
        text::law_split_undoes_join(numbers, ',');
        lemma_filter_keeps_all(numbers, |p: Seq<char>| p.len() > 0);
    }
    let start = text::joined(numbers.drop_last(), seq![',']);
    assert(value == start + seq![','] + numbers.last());
    assert(value[start.len() as int] == ',');
    text::lemma_trimmed_keeps(value, ',');
}

/// The text of the key is the setting, where that is not blank; else the variable, wherever it is set;
/// else the legacy variable; and else nothing.
pub proof fn law_key_text_in_use(
    setting: Seq<char>,
    private_key: Option<Seq<char>>,
    legacy_key: Option<Seq<char>>,
)
    ensures
        ({
            let value = key_text(setting, private_key, legacy_key);
            &&& !text::is_blank(setting) ==> value == setting
            &&& text::is_blank(setting) && private_key is Some ==> value == private_key->0
            &&& text::is_blank(setting) && private_key is None && legacy_key is Some ==> value
                == legacy_key->0
            &&& text::is_blank(setting) && private_key is None && legacy_key is None ==> value.len()
                == 0
        }),
{
}

/// What stands between commas counts, number by number, where it holds a digit; and no character but
/// digits and commas counts.
pub proof fn law_numbers_stand_between_commas(a: Seq<char>, b: Seq<char>, c: char)
    ensures
        key_numbers(a + seq![','] + b) == key_numbers(a) + key_numbers(b),
        a.len() > 0 && text::is_digits(a) ==> key_numbers(a) == seq![a],
        key_numbers(Seq::empty()) == Seq::<Seq<char>>::empty(),
        !('0' <= c <= '9') && c != ',' ==> key_numbers(a + seq![c] + b) == key_numbers(a + b),
{
    let keep = |c: char| is_key_char(c);
    let some = |p: Seq<char>| p.len() > 0;
    lemma_filter_of_three(a, ',', b);
    lemma_filter_of_three(a, c, b);
    assert(key_numbers(a + seq![','] + b) == key_numbers(a) + key_numbers(b)) by {
        text_laws::law_split_goes_on_behind_the_separator(a.filter(keep), b.filter(keep), ',');
        Seq::filter_distributes_over_add(
            text::split(a.filter(keep), ','),
            text::split(b.filter(keep), ','),
            some,
        );
    }
    if a.len() > 0 && text::is_digits(a) {
        lemma_number(a);
        lemma_filter_keeps_all(a, keep);
        text_laws::law_split_goes_on_behind_the_separator(a, a, ',');
        lemma_filter_keeps_all(seq![a], some);
    }
    assert(key_numbers(Seq::empty()) == Seq::<Seq<char>>::empty()) by {
        reveal_with_fuel(Seq::filter, 2);
        let empty = Seq::<char>::empty();
        assert(empty.filter(keep) == empty);
        assert(text::split(empty, ',') == seq![empty]);
        assert(seq![empty].drop_last() == Seq::<Seq<char>>::empty());
    }
}

proof fn lemma_filter_of_three(a: Seq<char>, c: char, b: Seq<char>)
    ensures
        ({
            let keep = |c: char| is_key_char(c);
            &&& is_key_char(c) ==> (a + seq![c] + b).filter(keep) == a.filter(keep) + seq![c]
                + b.filter(keep)
            &&& !is_key_char(c) ==> (a + seq![c] + b).filter(keep) == (a + b).filter(keep)
        }),
{
    let keep = |c: char| is_key_char(c);
    Seq::filter_distributes_over_add(a + seq![c], b, keep);
    Seq::filter_distributes_over_add(a, seq![c], keep);
    Seq::filter_distributes_over_add(a, b, keep);
    assert(seq![c].filter(keep) == (if is_key_char(c) {
        seq![c]
    } else {
        Seq::empty()
    })) by {
        reveal_with_fuel(Seq::filter, 2);
        assert(seq![c].drop_last() == Seq::<char>::empty());
        assert(Seq::<char>::empty().push(c) == seq![c]);
    }
    assert(a.filter(keep) + Seq::<char>::empty() == a.filter(keep));
}

/// Two bytes of hex text are read as two digits, or as one behind a `+`; as an error where they are
/// not a text, and as another where the text is something else.
pub proof fn law_hex_pairs(pair: Seq<u8>, a: char, b: char)
    requires
        pair.len() == 2,
    ensures
        !valid_utf8(pair) ==> hex_pair(pair) == Err::<u8, KeyError>(KeyError::NotUtf8),
        valid_utf8(pair) && decode_utf8(pair) == seq![a, b] ==> {
            &&& hex_value(a) is Some && hex_value(b) is Some ==> hex_pair(pair) == Ok::<
                u8,
                KeyError,
            >((16 * hex_value(a)->0 + hex_value(b)->0) as u8)
            &&& a == '+' && hex_value(b) is Some ==> hex_pair(pair) == Ok::<u8, KeyError>(
                hex_value(b)->0 as u8,
            )
            &&& hex_value(b) is None ==> hex_pair(pair) == Err::<u8, KeyError>(KeyError::Hex)
            &&& hex_value(a) is None && a != '+' ==> hex_pair(pair) == Err::<u8, KeyError>(
                KeyError::Hex,
            )
        },
{
}

/// The pairs of hex text are read one by one: the bytes are what they are read as, and the first that
/// is not a byte decides the error.
pub proof fn law_hex_text_pair_by_pair(bytes: Seq<u8>, n: nat)
    ensures
        hex_bytes(bytes, n) matches Ok(key) ==> key.len() == n && forall|i: int|
            0 <= i < n ==> hex_pair(#[trigger] bytes.subrange(2 * i, 2 * i + 2)) == Ok::<
                u8,
                KeyError,
            >(key[i]),
        hex_bytes(bytes, n) matches Err(error) ==> exists|i: int|
            {
                &&& 0 <= i < n
                &&& hex_pair(#[trigger] bytes.subrange(2 * i, 2 * i + 2)) == Err::<u8, KeyError>(
                    error,
                )
                &&& hex_bytes(bytes, i as nat) is Ok
            },
    decreases n,
{
    if n > 0 {
        let m = n - 1;
        law_hex_text_pair_by_pair(bytes, m as nat);
        assert(2 * n - 2 == 2 * m && 2 * n == 2 * m + 2);
        assert(bytes.subrange(2 * n - 2, 2 * n as int) == bytes.subrange(2 * m, 2 * m + 2));
    }
}

/// A text with a comma is no key where one of its numbers is above 255, nor where it does not have 32
/// numbers; else it is the key whose bytes they are.
pub proof fn law_comma_keys_in_general(value: Seq<char>)
    requires
        value.contains(','),
    ensures
        ({
            let numbers = key_numbers(value);
            let small = forall|i: int|
                0 <= i < numbers.len() ==> text::digits_value(#[trigger] numbers[i]) <= 255;
            &&& !small ==> key_in(value) == Err::<Seq<u8>, KeyError>(KeyError::Number)
            &&& small && numbers.len() != 32 ==> key_in(value) == Err::<Seq<u8>, KeyError>(
                KeyError::Count,
            )
            &&& small && numbers.len() == 32 ==> key_in(value) is Ok && key_in(value)->Ok_0.len()
                == 32 && forall|i: int|
                0 <= i < 32 ==> #[trigger] key_in(value)->Ok_0[i] == text::digits_value(numbers[i])
        }),
{
    let numbers = key_numbers(value);
    text::lemma_trimmed_keeps(value, ',');
    assert forall|i: int| 0 <= i < numbers.len() implies {
        &&& text::digits_value(#[trigger] numbers[i]) <= 255 ==> byte_of(numbers[i]) == Some(
            text::digits_value(numbers[i]),
        )
        &&& text::digits_value(numbers[i]) > 255 ==> byte_of(numbers[i]) is None
    } by {
        lemma_numbers_are_digits(value, i);
        lemma_number(numbers[i]);
    }
    let small = forall|i: int|
        0 <= i < numbers.len() ==> text::digits_value(#[trigger] numbers[i]) <= 255;
    if !small {
        let i = choose|i: int|
            0 <= i < numbers.len() && !(text::digits_value(#[trigger] numbers[i]) <= 255);
        assert(byte_of(numbers[i]) is None);
    }
}

proof fn lemma_numbers_are_digits(value: Seq<char>, i: int)
    requires
        0 <= i < key_numbers(value).len(),
    ensures
        key_numbers(value)[i].len() > 0,
        text::is_digits(key_numbers(value)[i]),
{
    let keep = |c: char| is_key_char(c);
    let some = |p: Seq<char>| p.len() > 0;
    let kept = value.filter(keep);
    let pieces = text::split(kept, ',');
    let number = key_numbers(value)[i];
    pieces.lemma_filter_pred(some, i);
    pieces.lemma_filter_contains_rev(some, number);
    let k = choose|k: int| 0 <= k < pieces.len() && pieces[k] == number;
    text_laws::law_join_undoes_split(kept, ',');
    assert forall|j: int| 0 <= j < kept.len() implies is_key_char(#[trigger] kept[j]) by {
        value.lemma_filter_pred(keep, j);
    }
    lemma_piece_is_part(pieces, ',', k);
    assert forall|j: int| 0 <= j < number.len() implies text::is_digit(#[trigger] number[j]) by {
        assert(number.contains(number[j]));
        assert(kept.contains(number[j]));
        let at = choose|at: int| 0 <= at < kept.len() && kept[at] == number[j];
        assert(is_key_char(kept[at]));
        assert(!pieces[k].contains(','));
    }
}

proof fn lemma_piece_is_part(pieces: Seq<Seq<char>>, sep: char, k: int)
    requires
        0 <= k < pieces.len(),
    ensures
        forall|c: char|
            pieces[k].contains(c) ==> #[trigger] text::joined(pieces, seq![sep]).contains(c),
    decreases pieces.len(),
{
    let whole = text::joined(pieces, seq![sep]);
    if pieces.len() > 1 {
        let start = text::joined(pieces.drop_last(), seq![sep]);
        assert(whole == start + seq![sep] + pieces.last());
        assert forall|c: char| pieces[k].contains(c) implies #[trigger] whole.contains(c) by {
            if k < pieces.len() - 1 {
                lemma_piece_is_part(pieces.drop_last(), sep, k);
                assert(pieces.drop_last()[k] == pieces[k]);
                assert(start.contains(c));
                let at = choose|at: int| 0 <= at < start.len() && start[at] == c;
                assert(whole[at] == c);
            } else {
                let at = choose|at: int| 0 <= at < pieces[k].len() && pieces[k][at] == c;
                assert(whole[start.len() + 1 + at] == c);
            }
        }
    } else {
        assert(whole == pieces[k]);
    }
}

} // verus!
