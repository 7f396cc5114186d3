//! What the library takes from the standard library's handling of text.

use vstd::prelude::*;

verus! {

/// The text that `str::to_uppercase` makes of a text.
pub uninterp spec fn upper_case(text: Seq<char>) -> Seq<char>;

/// Whether a character has Unicode's property White_Space: the tab, the
/// line feed, the vertical tab, the form feed, the carriage return, the
/// space, the next line, the no-break space, the Ogham space mark, the
/// spaces of fixed width from the en quad to the hair space, the line and
/// the paragraph separator, the narrow no-break space, the medium
/// mathematical space and the ideographic space.
pub open spec fn white_space(c: char) -> bool {
    let n = c as u32;
    ||| 0x09 <= n <= 0x0D
    ||| n == 0x20
    ||| n == 0x85
    ||| n == 0xA0
    ||| n == 0x1680
    ||| 0x2000 <= n <= 0x200A
    ||| n == 0x2028
    ||| n == 0x2029
    ||| n == 0x202F
    ||| n == 0x205F
    ||| n == 0x3000
}

/// `str::to_uppercase`: the text in upper case, as Unicode defines it. The
/// result depends on the text alone; it is named, not spelt out.
#[verifier::external_body]
pub(crate) fn upper(value: &str) -> (text: String)
    ensures
        text@ == upper_case(value@),
{
    value.to_uppercase()
}

/// `char::is_whitespace`: whether the character has Unicode's property
/// White_Space, which `white_space` spells out.
#[verifier::external_body]
pub(crate) fn is_space(c: char) -> (space: bool)
    ensures
        space == white_space(c),
{
    c.is_whitespace()
}

/// `char::to_string`: the text that consists of the one character.
#[verifier::external_body]
pub(crate) fn text_of(c: char) -> (text: String)
    ensures
        text@ == seq![c],
{
    c.to_string()
}

/// What is said of a text that names no rank or suit.
pub open spec fn no_conversion_text(value: Seq<char>) -> Seq<char> {
    "Could not find conversion case for input "@ + value
}

/// The message for a text that names no rank or suit.
pub(crate) fn no_conversion(value: &str) -> (message: String)
    ensures
        message@ == no_conversion_text(value@),
{
    String::from_str("Could not find conversion case for input ").concat(value)
}

/// Whether a text consists of the one character.
pub(crate) fn is_symbol(text: &str, symbol: char) -> (same: bool)
    ensures
        same == (text@ == seq![symbol]),
{
    if text.unicode_len() == 1 {
        let same = text.get_char(0) == symbol;
        proof {
            if same {
                assert(text@ =~= seq![symbol]);
            } else {
                assert(seq![symbol][0] == symbol);
            }
        }
        same
    } else {
        assert(seq![symbol].len() == 1);
        false
    }
}

/// Whether a text consists of the two characters.
pub(crate) fn is_pair(text: &str, first: char, second: char) -> (same: bool)
    ensures
        same == (text@ == seq![first, second]),
{
    if text.unicode_len() == 2 {
        let same = text.get_char(0) == first && text.get_char(1) == second;
        proof {
            if same {
                assert(text@ =~= seq![first, second]);
            } else {
                assert(seq![first, second][0] == first);
                assert(seq![first, second][1] == second);
            }
        }
        same
    } else {
        assert(seq![first, second].len() == 2);
        false
    }
}

} // verus!
