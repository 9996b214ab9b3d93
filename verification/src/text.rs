//! Small rules on text: white space and decimal notation.

use vstd::prelude::*;
use vstd::string::StringExecFns;

verus! {

/// Whether `c` has the Unicode property `White_Space`.
pub open spec fn is_white_space(c: char) -> bool {
    ||| '\u{9}' <= c <= '\u{d}'
    ||| c == '\u{20}'
    ||| c == '\u{85}'
    ||| c == '\u{a0}'
    ||| c == '\u{1680}'
    ||| '\u{2000}' <= c <= '\u{200a}'
    ||| '\u{2028}' <= c <= '\u{2029}'
    ||| c == '\u{202f}'
    ||| c == '\u{205f}'
    ||| c == '\u{3000}'
}

/// Whether nothing is left of `s` once white space is trimmed from both ends.
pub open spec fn blank(s: Seq<char>) -> bool {
    forall|i: int| 0 <= i < s.len() ==> is_white_space(#[trigger] s[i])
}

/// Decides [`is_white_space`].
pub fn white_space(c: char) -> (white: bool)
    ensures
        white == is_white_space(c),
{
    ('\u{9}' <= c && c <= '\u{d}') || c == '\u{20}' || c == '\u{85}' || c == '\u{a0}' || c
        == '\u{1680}' || ('\u{2000}' <= c && c <= '\u{200a}') || ('\u{2028}' <= c && c
        <= '\u{2029}') || c == '\u{202f}' || c == '\u{205f}' || c == '\u{3000}'
}

/// Decides [`blank`].
pub fn is_blank(s: &str) -> (yes: bool)
    ensures
        yes == blank(s@),
{
    for c in chars: s.chars()
        invariant
            chars.seq() == s@,
            forall|i: int| 0 <= i < chars.index() ==> is_white_space(#[trigger] s@[i]),
    {
        if !white_space(c) {
            return false;
        }
    }
    true
}

/// The decimal digit for `d`.
pub open spec fn digit(d: nat) -> char {
    (('0' as u32) + d) as char
}

/// Decimal notation of `n`, without leading zeros.
pub open spec fn decimal(n: nat) -> Seq<char>
    decreases n,
{
    if n < 10 {
        seq![digit(n)]
    } else {
        decimal(n / 10).push(digit(n % 10))
    }
}

fn digit_text(d: u64) -> (text: &'static str)
    requires
        d < 10,
    ensures
        text@ == seq![digit(d as nat)],
{
    proof {
        reveal_strlit("0");
        reveal_strlit("1");
        reveal_strlit("2");
        reveal_strlit("3");
        reveal_strlit("4");
        reveal_strlit("5");
        reveal_strlit("6");
        reveal_strlit("7");
        reveal_strlit("8");
        reveal_strlit("9");
    }
    match d {
        0 => "0",
        1 => "1",
        2 => "2",
        3 => "3",
        4 => "4",
        5 => "5",
        6 => "6",
        7 => "7",
        8 => "8",
        _ => "9",
    }
}

/// Writes `n` in decimal notation.
pub fn decimal_text(n: u64) -> (text: String)
    ensures
        text@ == decimal(n as nat),
    decreases n,
{
    if n < 10 {
        digit_text(n).to_owned()
    } else {
        let head = decimal_text(n / 10);
        let tail = digit_text(n % 10);
        let text = head.concat(tail);
        assert(text@ =~= decimal(n as nat));
        text
    }
}

/// The characters that Unicode lists as white space.
pub open spec fn white_space_characters() -> Set<char> {
    set![
        '\u{9}', '\u{a}', '\u{b}', '\u{c}', '\u{d}', ' ', '\u{85}', '\u{a0}', '\u{1680}',
        '\u{2000}', '\u{2001}', '\u{2002}', '\u{2003}', '\u{2004}', '\u{2005}', '\u{2006}',
        '\u{2007}', '\u{2008}', '\u{2009}', '\u{200a}', '\u{2028}', '\u{2029}', '\u{202f}',
        '\u{205f}', '\u{3000}'
    ]
}

/// A character is taken for white space exactly if Unicode lists it as such.
pub proof fn law_white_space_is_listed(c: char, white: bool)
    requires
        call_ensures(white_space, (c,), white),
    ensures
        white <==> white_space_characters().contains(c),
{
}

/// Whether a text holds a character that is not white space.
pub open spec fn holds_more_than_space(text: Seq<char>) -> bool {
    exists|i: int| 0 <= i < text.len() && !white_space_characters().contains(#[trigger] text[i])
}

/// A text is blank exactly if it holds nothing but white space: one other character, wherever it
/// stands and whatever stands around it, and the text is not blank.
pub proof fn law_blank_is_all_white_space(text: &str, yes: bool)
    requires
        call_ensures(is_blank, (text,), yes),
    ensures
        !yes <==> holds_more_than_space(text@),
        yes <==> forall|i: int|
            0 <= i < text@.len() ==> white_space_characters().contains(#[trigger] text@[i]),
        forall|i: int, white: bool|
            0 <= i < text@.len() && #[trigger] call_ensures(white_space, (text@[i],), white)
                && !white ==> !yes,
{
    assert(forall|c: char| is_white_space(c) <==> #[trigger] white_space_characters().contains(c));
    if !yes {
        let i = choose|i: int| 0 <= i < text@.len() && !is_white_space(#[trigger] text@[i]);
        assert(!white_space_characters().contains(text@[i]));
    }
}

/// Putting two texts together gives a blank text exactly if both are blank, and the empty text is
/// blank.
pub proof fn law_blank_of_joined_texts(a: &str, b: &str, joined: &str, yes: (bool, bool, bool))
    requires
        joined@ == a@ + b@,
        call_ensures(is_blank, (a,), yes.0),
        call_ensures(is_blank, (b,), yes.1),
        call_ensures(is_blank, (joined,), yes.2),
    ensures
        yes.2 <==> yes.0 && yes.1,
        a@.len() == 0 ==> yes.0,
{
    if yes.2 {
        assert forall|i: int| 0 <= i < a@.len() implies is_white_space(#[trigger] a@[i]) by {
            assert(joined@[i] == a@[i]);
        }
        assert forall|i: int| 0 <= i < b@.len() implies is_white_space(#[trigger] b@[i]) by {
            assert(joined@[a@.len() + i] == b@[i]);
        }
    }
}

/// The number that a text of decimal digits stands for.
pub open spec fn number_read(text: Seq<char>) -> int
    decreases text.len(),
{
    if text.len() == 0 {
        0
    } else {
        10 * number_read(text.drop_last()) + (text.last() as int - '0' as int)
    }
}

pub proof fn lemma_decimal_reads_back(n: nat)
    ensures
        number_read(decimal(n)) == n,
        decimal(n).len() > 0,
        decimal(n)[0] == '0' ==> n == 0,
        forall|i: int| 0 <= i < decimal(n).len() ==> '0' <= #[trigger] decimal(n)[i] <= '9',
        n < 10 ==> decimal(n).len() == 1,
    decreases n,
{
    reveal_with_fuel(number_read, 2);
    if n >= 10 {
        lemma_decimal_reads_back(n / 10);
        assert(decimal(n).drop_last() =~= decimal(n / 10));
    } else {
        assert(seq![digit(n)].drop_last() =~= Seq::empty());
    }
}

/// A number that is written reads back as itself: its text is made of digits, stands for the
/// number, and has no leading zero.
pub proof fn law_written_number_reads_back(n: u64, text: String)
    requires
        call_ensures(decimal_text, (n,), text),
    ensures
        number_read(text@) == n,
        text@.len() > 0,
        forall|i: int| 0 <= i < text@.len() ==> '0' <= #[trigger] text@[i] <= '9',
        text@[0] == '0' ==> text@.len() == 1,
{
    lemma_decimal_reads_back(n as nat);
}

} // verus!
