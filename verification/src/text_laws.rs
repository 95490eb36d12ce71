//! What is blank, what comes first, and which numbers texts spell, said of the
//! characters themselves.

use vstd::prelude::*;

use crate::text::{
    blank, decimal_text, digit, digits_value, parsed_unsigned, signed_text, text_le, unsigned_part,
    white_space,
};

verus! {

/// White space is what Unicode lists under that property, and nothing else.
pub proof fn law_white_space(c: char)
    ensures
        white_space(c) <==> {
            ||| c == '\t' || c == '\n' || c == '\u{b}' || c == '\u{c}' || c == '\r' || c == ' '
            ||| c == '\u{85}' || c == '\u{a0}' || c == '\u{1680}'
            ||| c == '\u{2000}' || c == '\u{2001}' || c == '\u{2002}' || c == '\u{2003}'
            ||| c == '\u{2004}' || c == '\u{2005}' || c == '\u{2006}' || c == '\u{2007}'
            ||| c == '\u{2008}' || c == '\u{2009}' || c == '\u{200a}'
            ||| c == '\u{2028}' || c == '\u{2029}' || c == '\u{202f}' || c == '\u{205f}'
            ||| c == '\u{3000}'
        },
{
}

/// An empty text is blank, a character alone where it is white space, and two
/// texts together where both are.
pub proof fn law_blank_by_parts(a: Seq<char>, b: Seq<char>, c: char)
    ensures
        blank(Seq::empty()),
        blank(seq![c]) == white_space(c),
        blank(a + b) == (blank(a) && blank(b)),
{
    assert(seq![c][0] == c);
    if blank(a + b) {
        assert forall|i: int| 0 <= i < a.len() implies white_space(#[trigger] a[i]) by {
            assert((a + b)[i] == a[i]);
        }
        assert forall|i: int| 0 <= i < b.len() implies white_space(#[trigger] b[i]) by {
            assert((a + b)[a.len() + i] == b[i]);
        }
    }
}

/// One character that is not white space is enough for a text not to be
/// blank, however long the text is.
pub proof fn law_any_other_character_is_enough(s: Seq<char>, i: int)
    requires
        0 <= i < s.len(),
        !white_space(s[i]),
    ensures
        !blank(s),
{
}

/// Of two texts that agree before position `i`, the one with the smaller code
/// point there comes first, and one that ends there comes before the other.
pub proof fn law_text_order_is_by_code_point(a: Seq<char>, b: Seq<char>, i: int)
    requires
        0 <= i <= a.len(),
        i <= b.len(),
        forall|j: int| 0 <= j < i ==> a[j] == b[j],
    ensures
        i < a.len() && i < b.len() && (a[i] as int) < (b[i] as int) ==> text_le(a, b) && !text_le(
            b,
            a,
        ),
        i == a.len() ==> text_le(a, b),
        i == a.len() && i < b.len() ==> !text_le(b, a),
    decreases i,
{
    if i > 0 {
        let x = a.drop_first();
        let y = b.drop_first();
        assert forall|j: int| 0 <= j < i - 1 implies x[j] == y[j] by {
            assert(a[j + 1] == b[j + 1]);
        }
        law_text_order_is_by_code_point(x, y, i - 1);
        if i < a.len() && i < b.len() {
            assert(x[i - 1] == a[i] && y[i - 1] == b[i]);
        }
    }
}

/// A digit alone spells its value.
pub proof fn law_one_digit(c: char, k: nat, max: nat)
    requires
        k < 10,
        c as u32 == 48 + k,
    ensures
        parsed_unsigned(seq![c], max) == if k <= max {
            Some(k)
        } else {
            None
        },
{
    let s = seq![c];
    assert(unsigned_part(s) =~= s);
    assert(s.drop_last() =~= Seq::empty());
    assert(digits_value(s.drop_last()) == 0);
    assert(s.last() == c);
    assert(digit(s[0]));
    assert(digits_value(s) == k);
}

/// One more digit makes ten times the number that was spelled, and the digit.
pub proof fn law_next_digit(s: Seq<char>, n: nat, c: char, k: nat, max: nat)
    requires
        parsed_unsigned(s, n) == Some(n),
        k < 10,
        c as u32 == 48 + k,
    ensures
        parsed_unsigned(s.push(c), max) == if 10 * n + k <= max {
            Some(10 * n + k)
        } else {
            None
        },
{
    let d = unsigned_part(s);
    let t = unsigned_part(s.push(c));
    assert(s.push(c)[0] == s[0]);
    assert(t =~= d.push(c));
    assert(t.drop_last() =~= d);
    assert(digits_value(t) == 10 * n + k);
    assert forall|i: int| 0 <= i < t.len() implies digit(#[trigger] t[i]) by {
        if i < d.len() {
            assert(digit(d[i]));
        }
    }
}

/// The limit decides only whether a number is accepted, not which it is.
pub proof fn law_limit(s: Seq<char>, max: nat, other: nat)
    ensures
        parsed_unsigned(s, max) matches Some(n) ==> n <= max && parsed_unsigned(s, other) == if n
            <= other {
            Some(n)
        } else {
            None
        },
{
}

/// A `+` before a number changes nothing.
pub proof fn law_plus(s: Seq<char>, max: nat)
    requires
        s.len() > 0,
        s[0] != '+',
    ensures
        parsed_unsigned(seq!['+'] + s, max) == parsed_unsigned(s, max),
{
    assert((seq!['+'] + s).drop_first() =~= s);
}

/// A text with a character that is no digit spells no number, but for a `+` at
/// its beginning; nor does a text without digits.
pub proof fn law_no_number(s: Seq<char>, i: int, max: nat)
    ensures
        0 <= i < s.len() && !(48 <= s[i] as u32 <= 57) && (i > 0 || s[i] != '+') ==> parsed_unsigned(
            s,
            max,
        ) is None,
        parsed_unsigned(Seq::empty(), max) is None,
        parsed_unsigned(seq!['+'], max) is None,
{
    let d = unsigned_part(s);
    if 0 <= i < s.len() && !(48 <= s[i] as u32 <= 57) && (i > 0 || s[i] != '+') {
        let k = if s[0] == '+' {
            i - 1
        } else {
            i
        };
        assert(d[k] == s[i]);
        assert(!digit(d[k]));
    }
    assert(unsigned_part(seq!['+']) =~= Seq::empty());
}

/// The decimal text of a number spells that number, with digits only and
/// without a leading zero.
pub proof fn law_decimal_text_spells_the_number(n: nat)
    ensures
        parsed_unsigned(decimal_text(n), n) == Some(n),
        decimal_text(n).len() > 0,
        forall|i: int| 0 <= i < decimal_text(n).len() ==> 48 <= #[trigger] decimal_text(n)[i] as u32
            <= 57,
        n > 0 ==> decimal_text(n)[0] != '0',
        n == 0 ==> decimal_text(n) == seq!['0'],
    decreases n,
{
    let s = decimal_text(n);
    if n < 10 {
        law_one_digit(s[0], n, n);
        assert(s =~= seq![s[0]]);
    } else {
        law_decimal_text_spells_the_number(n / 10);
        let c = s.last();
        assert(s =~= decimal_text(n / 10).push(c));
        law_next_digit(decimal_text(n / 10), n / 10, c, n % 10, n);
        assert forall|i: int| 0 <= i < s.len() implies 48 <= #[trigger] s[i] as u32 <= 57 by {
            if i < s.len() - 1 {
                assert(s[i] == decimal_text(n / 10)[i]);
            }
        }
        assert(s[0] == decimal_text(n / 10)[0]);
    }
}

/// A negative number is a `-` and what the number without its sign is.
pub proof fn law_signed_text(n: nat)
    ensures
        signed_text(n as int) == decimal_text(n),
        n > 0 ==> signed_text(-n) == seq!['-'] + decimal_text(n),
{
}

} // verus!
