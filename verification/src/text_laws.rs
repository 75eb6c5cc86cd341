//! What holds of the functions on text, for every text.
use crate::text;
use vstd::prelude::*;

verus! {

/// Tokens keep the ASCII letters and digits, `-` and `_`, and nothing else.
pub proof fn law_token_characters(c: char)
    ensures
        text::is_token_char(c) <==> {
            ||| 'a' <= c <= 'z'
            ||| 'A' <= c <= 'Z'
            ||| '0' <= c <= '9'
            ||| c == '-'
            ||| c == '_'
        },
{
}

/// Changing the case keeps the length, moves ASCII letters of the other case by 32, and leaves every
/// other character as it is.
pub proof fn law_case_changes_letters_only(s: Seq<char>, i: int)
    requires
        0 <= i < s.len(),
    ensures
        text::lowered(s).len() == s.len(),
        text::uppered(s).len() == s.len(),
        'A' <= s[i] <= 'Z' ==> text::lowered(s)[i] as int == s[i] as int + 32,
        !('A' <= s[i] <= 'Z') ==> text::lowered(s)[i] == s[i],
        'a' <= s[i] <= 'z' ==> text::uppered(s)[i] as int == s[i] as int - 32,
        !('a' <= s[i] <= 'z') ==> text::uppered(s)[i] == s[i],
{
}

/// What tokens keep of two texts behind each other is what they keep of each; of one character, they
/// keep it or nothing.
pub proof fn law_kept_piece_by_piece(a: Seq<char>, b: Seq<char>, c: char)
    ensures
        text::kept(a + b) == text::kept(a) + text::kept(b),
        text::is_token_char(c) ==> text::kept(seq![c]) == seq![c],
        !text::is_token_char(c) ==> text::kept(seq![c]) == Seq::<char>::empty(),
        text::kept(Seq::empty()) == Seq::<char>::empty(),
{
    let keep = |c: char| text::is_token_char(c);
    Seq::filter_distributes_over_add(a, b, keep);
    reveal_with_fuel(Seq::filter, 2);
    assert(seq![c].drop_last() == Seq::<char>::empty());
    assert(Seq::<char>::empty().push(c) == seq![c]);
}

/// `s` holds nothing but white space.
pub open spec fn all_white(s: Seq<char>) -> bool {
    forall|i: int| 0 <= i < s.len() ==> text::is_white_space(#[trigger] s[i])
}

proof fn lemma_trim_start_of_white(white: Seq<char>, s: Seq<char>)
    requires
        all_white(white),
    ensures
        text::trim_start(white + s) == text::trim_start(s),
    decreases white.len(),
{
    if white.len() == 0 {
        assert(white + s == s);
    } else {
        let rest = white.drop_first();
        assert forall|i: int| 0 <= i < rest.len() implies text::is_white_space(
            #[trigger] rest[i],
        ) by {
            assert(rest[i] == white[i + 1]);
        }
        lemma_trim_start_of_white(rest, s);
        assert((white + s)[0] == white[0]);
        assert((white + s).drop_first() == rest + s);
    }
}

proof fn lemma_trim_end_of_white(s: Seq<char>, white: Seq<char>)
    requires
        all_white(white),
    ensures
        text::trim_end(s + white) == text::trim_end(s),
    decreases white.len(),
{
    if white.len() == 0 {
        assert(s + white == s);
    } else {
        let rest = white.drop_last();
        assert forall|i: int| 0 <= i < rest.len() implies text::is_white_space(
            #[trigger] rest[i],
        ) by {
            assert(rest[i] == white[i]);
        }
        lemma_trim_end_of_white(s, rest);
        assert((s + white).last() == white[white.len() - 1]);
        assert((s + white).drop_last() == s + rest);
    }
}

/// Trimming takes off the white space around a text and no more.
pub proof fn law_trimming_takes_off_white_space(
    before: Seq<char>,
    s: Seq<char>,
    after: Seq<char>,
)
    requires
        all_white(before),
        all_white(after),
        s.len() > 0 ==> !text::is_white_space(s[0]) && !text::is_white_space(s.last()),
    ensures
        text::trimmed(before + s + after) == s,
        text::is_blank(before + s + after) <==> s.len() == 0,
{
    assert(before + s + after == before + (s + after));
    lemma_trim_start_of_white(before, s + after);
    if s.len() > 0 {
        assert((s + after)[0] == s[0]);
        lemma_trim_end_of_white(s, after);
    } else {
        assert(s + after == after + s);
        lemma_trim_start_of_white(after, s);
    }
}

/// A decimal notation has no leading zeros: it starts with `0` for the number 0 alone.
pub proof fn law_decimal_has_no_leading_zeros(n: nat)
    ensures
        text::decimal(n)[0] == '0' <==> n == 0,
        n < 10 <==> text::decimal(n).len() == 1,
    decreases n,
{
    if n >= 10 {
        law_decimal_has_no_leading_zeros(n / 10);
    }
}

/// A digit behind digits adds its value to ten times theirs.
pub proof fn law_digits_count_by_ten(s: Seq<char>, c: char)
    requires
        '0' <= c <= '9',
    ensures
        text::digits_value(Seq::empty()) == 0,
        text::digits_value(s.push(c)) == 10 * text::digits_value(s) + (c as int - '0' as int),
{
    assert(s.push(c).drop_last() == s);
}

/// A text reads as an unsigned number exactly where it is digits, with or without one `+` before
/// them, whose value is in range; and it reads as that value.
pub proof fn law_unsigned_numbers(s: Seq<char>, max: nat)
    requires
        s.len() > 0,
        forall|i: int| 0 <= i < s.len() ==> '0' <= #[trigger] s[i] <= '9',
    ensures
        text::digits_value(s) <= max ==> text::parsed_unsigned(s, max) == Some(
            text::digits_value(s),
        ) && text::parsed_unsigned(seq!['+'] + s, max) == Some(text::digits_value(s)),
        text::digits_value(s) > max ==> text::parsed_unsigned(s, max) is None
            && text::parsed_unsigned(seq!['+'] + s, max) is None,
{
    assert((seq!['+'] + s).drop_first() == s);
    assert(text::is_digits(s));
}

/// A text that holds anything but digits, other than one `+` at its start, is no unsigned number;
/// and neither is one without a digit.
pub proof fn law_other_texts_are_no_numbers(s: Seq<char>, max: nat, i: int)
    requires
        s.len() == 0 || (0 <= i < s.len() && !('0' <= s[i] <= '9') && (i > 0 || s[i] != '+'
            || s.len() == 1)),
    ensures
        text::parsed_unsigned(s, max) is None,
{
    if s.len() > 0 {
        if s[0] == '+' {
            let digits = s.drop_first();
            if i > 0 {
                assert(digits[i - 1] == s[i]);
            }
        } else {
            assert(!text::is_digit(s[i]));
        }
    }
}

/// Joining undoes splitting, and no piece holds the separator.
pub proof fn law_join_undoes_split(s: Seq<char>, sep: char)
    ensures
        text::joined(text::split(s, sep), seq![sep]) == s,
        text::split(s, sep).len() > 0,
        forall|i: int|
            0 <= i < text::split(s, sep).len() ==> !(#[trigger] text::split(s, sep)[i]).contains(
                sep,
            ),
    decreases s.len(),
{
    let pieces = text::split(s, sep);
    let by = seq![sep];
    if s.len() == 0 {
        assert(pieces == seq![Seq::<char>::empty()]);
    } else {
        let before = text::split(s.drop_last(), sep);
        law_join_undoes_split(s.drop_last(), sep);
        if s.last() == sep {
            assert(pieces.drop_last() == before);
            assert(text::joined(pieces, by) == s.drop_last() + by + Seq::<char>::empty());
            assert(s == s.drop_last() + by);
            assert forall|i: int| 0 <= i < pieces.len() implies !(#[trigger] pieces[i]).contains(
                sep,
            ) by {
                if i < before.len() {
                    assert(pieces[i] == before[i]);
                }
            }
        } else {
            let grown = before.last().push(s.last());
            assert(pieces == before.drop_last().push(grown));
            assert(pieces.drop_last() == before.drop_last());
            assert(s == s.drop_last().push(s.last()));
            if before.len() == 1 {
                assert(text::joined(pieces, by) == grown);
            } else {
                let start = text::joined(before.drop_last(), by);
                assert(start + by + grown == (start + by + before.last()).push(s.last()));
            }
            assert forall|i: int| 0 <= i < pieces.len() implies !(#[trigger] pieces[i]).contains(
                sep,
            ) by {
                if i < before.len() - 1 {
                    assert(pieces[i] == before[i]);
                } else {
                    assert(!before[before.len() - 1].contains(sep));
                    assert forall|j: int| 0 <= j < grown.len() implies grown[j] != sep by {
                        if j < before.last().len() {
                            assert(grown[j] == before.last()[j]);
                        }
                    }
                }
            }
        }
    }
}

/// Nothing is joined to nothing, and a piece that is joined on stands behind the others and the
/// separator.
pub proof fn law_joined_grows(pieces: Seq<Seq<char>>, piece: Seq<char>, sep: Seq<char>)
    ensures
        text::joined(Seq::empty(), sep) == Seq::<char>::empty(),
        text::joined(seq![piece], sep) == piece,
        pieces.len() > 0 ==> text::joined(pieces.push(piece), sep) == text::joined(pieces, sep)
            + sep + piece,
{
    assert(pieces.push(piece).drop_last() == pieces);
}

/// Digits read as a signed number by their value, with or without a `+`, and with a `-` before them
/// by its negative, where that is in range.
pub proof fn law_signed_numbers(s: Seq<char>)
    requires
        s.len() > 0,
        forall|i: int| 0 <= i < s.len() ==> '0' <= #[trigger] s[i] <= '9',
    ensures
        ({
            let n = text::digits_value(s) as int;
            &&& n <= i32::MAX ==> text::parsed_i32(s) == Some(n) && text::parsed_i32(
                seq!['+'] + s,
            ) == Some(n)
            &&& n > i32::MAX ==> text::parsed_i32(s) is None && text::parsed_i32(seq!['+'] + s)
                is None
            &&& -n >= i32::MIN ==> text::parsed_i32(seq!['-'] + s) == Some(-n)
            &&& -n < i32::MIN ==> text::parsed_i32(seq!['-'] + s) is None
        }),
{
    law_unsigned_numbers(s, i32::MAX as nat);
    assert((seq!['-'] + s).drop_first() == s);
    assert(text::is_digits(s));
    assert(s[0] != '-');
}

/// White space is the tab, the four line characters behind it, the space, and the further code points
/// that have the property in Unicode.
pub proof fn law_white_space_characters(c: char)
    ensures
        text::is_white_space(c) <==> {
            let n = c as u32;
            ||| 0x9 <= n <= 0xd
            ||| n == 0x20
            ||| n == 0x85
            ||| n == 0xa0
            ||| n == 0x1680
            ||| 0x2000 <= n <= 0x200a
            ||| n == 0x2028
            ||| n == 0x2029
            ||| n == 0x202f
            ||| n == 0x205f
            ||| n == 0x3000
        },
        text::is_token_char(c) ==> !text::is_white_space(c),
{
}

/// Digits with white space around them read, once that is taken off, as the digits do.
pub proof fn law_digits_in_white_space(before: Seq<char>, s: Seq<char>, after: Seq<char>)
    requires
        all_white(before),
        all_white(after),
        s.len() > 0,
        forall|i: int| 0 <= i < s.len() ==> '0' <= #[trigger] s[i] <= '9',
    ensures
        text::trimmed(before + s + after) == s,
        text::trimmed(before + (seq!['+'] + s) + after) == seq!['+'] + s,
        !text::is_blank(before + s + after),
        !text::is_blank(before + (seq!['+'] + s) + after),
{
    assert('0' <= s[0] <= '9' && '0' <= s[s.len() - 1] <= '9');
    law_trimming_takes_off_white_space(before, s, after);
    let signed = seq!['+'] + s;
    assert(signed[0] == '+' && signed.last() == s.last());
    law_trimming_takes_off_white_space(before, signed, after);
}

/// A text that holds anything but digits, other than one `+` or `-` at its start, is no signed number;
/// and neither is one without a digit.
pub proof fn law_other_texts_are_no_signed_numbers(s: Seq<char>, i: int)
    requires
        s.len() == 0 || (0 <= i < s.len() && !('0' <= s[i] <= '9') && (i > 0 || (s[i] != '+' && s[i]
            != '-') || s.len() == 1)),
    ensures
        text::parsed_i32(s) is None,
{
    law_other_texts_are_no_numbers(Seq::empty(), i32::MAX as nat, 0);
    if s.len() > 0 {
        if s[0] == '-' {
            let digits = s.drop_first();
            if i > 0 {
                assert(digits[i - 1] == s[i]);
            }
        } else {
            law_other_texts_are_no_numbers(s, i32::MAX as nat, i);
        }
    }
}

/// Splitting goes piece by piece: a text without the separator is one piece, and two texts with the
/// separator between them have the pieces of the one and then those of the other.
pub proof fn law_split_goes_on_behind_the_separator(s: Seq<char>, t: Seq<char>, sep: char)
    ensures
        !s.contains(sep) ==> text::split(s, sep) == seq![s],
        text::split(s + seq![sep] + t, sep) == text::split(s, sep) + text::split(t, sep),
    decreases t.len(),
{
    if !s.contains(sep) {
        text::law_split_undoes_join(seq![s], sep);
        law_joined_grows(Seq::empty(), s, seq![sep]);
    }
    let whole = s + seq![sep] + t;
    if t.len() == 0 {
        assert(whole.drop_last() == s && whole.last() == sep);
        assert(t == Seq::<char>::empty());
        assert(text::split(t, sep) == seq![t]);
        assert(text::split(s, sep).push(t) == text::split(s, sep) + seq![t]);
    } else {
        let shorter = t.drop_last();
        law_split_goes_on_behind_the_separator(s, shorter, sep);
        law_join_undoes_split(shorter, sep);
        assert(whole.drop_last() == s + seq![sep] + shorter);
        let first = text::split(s, sep);
        let rest = text::split(shorter, sep);
        if t.last() == sep {
            let empty = Seq::<char>::empty();
            assert((first + rest).push(empty) == first + rest.push(empty));
        } else {
            let grown = rest.last().push(t.last());
            assert((first + rest).drop_last() == first + rest.drop_last());
            assert((first + rest.drop_last()).push(grown) == first + rest.drop_last().push(grown));
        }
    }
}

/// In contracts, a text that is there is that very text, an empty one too.
pub proof fn law_optional_texts(s: String, t: &str)
    ensures
        text::opt_text(Some(s)) == Some(s@),
        text::opt_text(None) is None,
        text::opt_str(Some(t)) == Some(t@),
        text::opt_str(None) is None,
{
}

/// In contracts, texts are as many, and each is that very text.
pub proof fn law_lists_of_texts(v: Seq<String>, i: int)
    requires
        0 <= i < v.len(),
    ensures
        text::texts(v).len() == v.len(),
        text::texts(v)[i] == v[i]@,
{
}

} // verus!
