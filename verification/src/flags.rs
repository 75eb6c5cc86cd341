//! Settings that come in as text.
use crate::text;
use crate::text_laws;
use vstd::prelude::*;

verus! {

/// What a setting is compared by: without white space around it, in lower case.
pub open spec fn word(value: Seq<char>) -> Seq<char> {
    text::lowered(text::trimmed(value))
}

/// A word that everywhere switches a flag on.
pub open spec fn is_yes(w: Seq<char>) -> bool {
    w == "1"@ || w == "true"@ || w == "yes"@ || w == "on"@
}

/// A word that asks for a local or mock setup.
pub open spec fn is_local(w: Seq<char>) -> bool {
    w == "local"@ || w == "mock"@
}

/// A flag of the NATS setup is on.
pub open spec fn is_flag(value: Option<Seq<char>>) -> bool {
    value matches Some(v) && (is_yes(word(v)) || word(v) == "y"@)
}

/// The number that a setting holds, or `default` where it is not set or does not hold one.
pub open spec fn number_or(value: Option<Seq<char>>, default: u64) -> u64 {
    match value {
        Some(v) => match text::parsed_unsigned(text::trimmed(v), u64::MAX as nat) {
            Some(n) => n as u64,
            None => default,
        },
        None => default,
    }
}

/// What `value` is compared by.
pub fn to_word(value: &str) -> (r: String)
    ensures
        r@ == word(value@),
{
    let trimmed = text::trim(value);
    text::to_lower(trimmed.as_str())
}

/// `w` everywhere switches a flag on.
pub fn yes_word(w: &str) -> (r: bool)
    ensures
        r == is_yes(w@),
{
    text::same_text(w, "1") || text::same_text(w, "true") || text::same_text(w, "yes")
        || text::same_text(w, "on")
}

/// `w` asks for a local or mock setup.
pub fn local_word(w: &str) -> (r: bool)
    ensures
        r == is_local(w@),
{
    text::same_text(w, "local") || text::same_text(w, "mock")
}

/// A flag of the NATS setup is on.
pub fn env_flag(value: Option<&str>) -> (r: bool)
    ensures
        r == is_flag(text::opt_str(value)),
{
    match value {
        Some(v) => {
            let w = to_word(v);
            yes_word(w.as_str()) || text::same_text(w.as_str(), "y")
        },
        None => false,
    }
}

/// The number that `value` holds, or `default`.
pub fn env_number(value: Option<&str>, default: u64) -> (r: u64)
    ensures
        r == number_or(text::opt_str(value), default),
{
    match value {
        Some(v) => {
            let trimmed = text::trim(v);
            match text::parse_u64(trimmed.as_str()) {
                Some(n) => n,
                None => default,
            }
        },
        None => default,
    }
}

// ---------------------------------------------------------------------------
// Laws
// ---------------------------------------------------------------------------

/// Words are the same whatever the case of their letters and whatever white space stands around them,
/// and the words that switch a flag on, or ask for a local setup, are these.
pub proof fn law_words(before: Seq<char>, w: Seq<char>, after: Seq<char>)
    requires
        text_laws::all_white(before),
        text_laws::all_white(after),
        w.len() > 0 ==> !text::is_white_space(w[0]) && !text::is_white_space(w.last()),
    ensures
        ({
            let value = before + w + after;
            let small = text::lowered(w);
            let yes = small == "1"@ || small == "true"@ || small == "yes"@ || small == "on"@;
            &&& word(value) == small
            &&& is_yes(word(value)) <==> yes
            &&& is_local(word(value)) <==> small == "local"@ || small == "mock"@
            &&& is_flag(Some(value)) <==> yes || small == "y"@
            &&& !is_flag(None)
        }),
{
    text_laws::law_trimming_takes_off_white_space(before, w, after);
}

/// A setting that holds digits, with or without a `+` before them and white space around them, is
/// their value, where that is in range; and it is `default` where it is not set, or is blank, or the
/// value is not in range.
pub proof fn law_numbers_are_read(
    before: Seq<char>,
    s: Seq<char>,
    after: Seq<char>,
    default: u64,
)
    requires
        text_laws::all_white(before),
        text_laws::all_white(after),
        s.len() > 0,
        forall|i: int| 0 <= i < s.len() ==> '0' <= #[trigger] s[i] <= '9',
    ensures
        ({
            let n = text::digits_value(s);
            let read = if n <= u64::MAX {
                n as u64
            } else {
                default
            };
            &&& number_or(Some(before + s + after), default) == read
            &&& number_or(Some(before + (seq!['+'] + s) + after), default) == read
            &&& number_or(Some(before + after), default) == default
            &&& number_or(None, default) == default
        }),
{
    text_laws::law_digits_in_white_space(before, s, after);
    text_laws::law_unsigned_numbers(s, u64::MAX as nat);
    text_laws::law_trimming_takes_off_white_space(before, Seq::empty(), after);
    assert(before + Seq::<char>::empty() + after == before + after);
    text_laws::law_other_texts_are_no_numbers(Seq::empty(), u64::MAX as nat, 0);
}

/// Every number is read back from its decimal notation, with or without white space around it.
pub proof fn law_number_reads_back(before: Seq<char>, n: u64, after: Seq<char>, default: u64)
    requires
        text_laws::all_white(before),
        text_laws::all_white(after),
    ensures
        number_or(Some(before + text::decimal(n as nat) + after), default) == n,
{
    text::lemma_decimal_is_digits(n as nat);
    text::law_decimal_reads_back(n as nat, u64::MAX as nat);
    text_laws::law_digits_in_white_space(before, text::decimal(n as nat), after);
}

/// A setting that holds anything else than digits, other than one `+` before them, is `default`.
pub proof fn law_other_settings_are_default(
    before: Seq<char>,
    s: Seq<char>,
    after: Seq<char>,
    default: u64,
    i: int,
)
    requires
        text_laws::all_white(before),
        text_laws::all_white(after),
        0 <= i < s.len(),
        !text::is_white_space(s[0]),
        !text::is_white_space(s.last()),
        !('0' <= s[i] <= '9'),
        i > 0 || s[i] != '+' || s.len() == 1,
    ensures
        number_or(Some(before + s + after), default) == default,
{
    text_laws::law_trimming_takes_off_white_space(before, s, after);
    text_laws::law_other_texts_are_no_numbers(s, u64::MAX as nat, i);
}

} // verus!
