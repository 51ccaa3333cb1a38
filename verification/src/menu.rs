//! The terminal menu: what a typed line asks for.

use vstd::prelude::*;
use vstd::string::*;
use crate::catalog::text_eq;

verus! {

/// What a line typed at the preset menu asks for.
pub enum MenuCommand {
    /// `P`: show the parameters of the current effect.
    ShowParams,
    /// `R`: read the preset file again.
    Reload,
    /// `S <name>`: save the current state as a preset under the name.
    Save(String),
    /// A number: select the preset with that (one-based) number.
    Select(usize),
    /// Anything else.
    Invalid,
}

/// White space as Unicode defines it (the `White_Space` property).
pub open spec fn is_space(c: char) -> bool {
    let u = c as u32;
    (0x9 <= u <= 0xd) || u == 0x20 || u == 0x85 || u == 0xa0 || u == 0x1680 || (0x2000 <= u
        <= 0x200a) || u == 0x2028 || u == 0x2029 || u == 0x202f || u == 0x205f || u == 0x3000
}

/// Whether a character is white space.
pub fn is_white_space(c: char) -> (r: bool)
    ensures
        r == is_space(c),
{
    let u = c as u32;
    (0x9 <= u && u <= 0xd) || u == 0x20 || u == 0x85 || u == 0xa0 || u == 0x1680 || (0x2000 <= u
        && u <= 0x200a) || u == 0x2028 || u == 0x2029 || u == 0x202f || u == 0x205f || u == 0x3000
}

/// The position of the first character from `i` on that is not white space
/// (the length when there is none).
pub open spec fn skip_space(s: Seq<char>, i: int) -> int
    decreases s.len() - i,
{
    if 0 <= i < s.len() && is_space(s[i]) {
        skip_space(s, i + 1)
    } else {
        i
    }
}

/// The end of the text before position `j` once trailing white space is
/// cut off.
pub open spec fn cut_space(s: Seq<char>, j: int) -> int
    decreases j,
{
    if 0 < j <= s.len() && is_space(s[j - 1]) {
        cut_space(s, j - 1)
    } else {
        j
    }
}

/// A text without its leading and trailing white space.
pub open spec fn trimmed(s: Seq<char>) -> Seq<char> {
    let a = skip_space(s, 0);
    if a >= s.len() {
        Seq::empty()
    } else {
        s.subrange(a, cut_space(s, s.len() as int))
    }
}

/// The text without its leading and trailing white space.
pub fn trim(s: &str) -> (r: &str)
    ensures
        r@ == trimmed(s@),
{
    let n = s.unicode_len();
    let mut a: usize = 0;
    loop
        invariant
            a <= n == s@.len(),
            skip_space(s@, 0) == skip_space(s@, a as int),
        ensures
            a <= n,
            skip_space(s@, 0) == a,
            a < n ==> !is_space(s@[a as int]),
        decreases n - a,
    {
        if a >= n {
            break;
        }
        if !is_white_space(s.get_char(a)) {
            break;
        }
        a = a + 1;
    }
    if a == n {
        return s.substring_char(n, n);
    }
    let mut b: usize = n;
    loop
        invariant
            a < b <= n == s@.len(),
            skip_space(s@, 0) == a,
            !is_space(s@[a as int]),
            cut_space(s@, n as int) == cut_space(s@, b as int),
        ensures
            a < b <= n,
            cut_space(s@, n as int) == b,
        decreases b,
    {
        if !is_white_space(s.get_char(b - 1)) {
            break;
        }
        b = b - 1;
    }
    s.substring_char(a, b)
}

/// Whether a character is an ASCII decimal digit.
pub open spec fn is_digit(c: char) -> bool {
    '0' <= c <= '9'
}

/// The number that a string of decimal digits writes.
pub open spec fn digits_value(s: Seq<char>) -> nat
    decreases s.len(),
{
    if s.len() == 0 {
        0
    } else {
        digits_value(s.drop_last()) * 10 + ((s.last() as int) - ('0' as int)) as nat
    }
}

/// The digits of a decimal number, after an optional leading `+`.
pub open spec fn unsigned_digits(s: Seq<char>) -> Seq<char> {
    if s.len() > 0 && s[0] == '+' {
        s.drop_first()
    } else {
        s
    }
}

/// The value of a text read as a decimal number that fits in a `usize`: an
/// optional `+` and then at least one digit and nothing else.
pub open spec fn decimal_value(s: Seq<char>) -> Option<usize> {
    let d = unsigned_digits(s);
    if d.len() > 0 && (forall|i: int| 0 <= i < d.len() ==> #[trigger] is_digit(d[i]))
        && digits_value(d) <= usize::MAX {
        Some(digits_value(d) as usize)
    } else {
        None
    }
}

/// A number never shrinks by writing more digits after it.
pub proof fn lemma_digits_grow(s: Seq<char>, k: int)
    requires
        0 <= k <= s.len(),
        forall|i: int| 0 <= i < s.len() ==> #[trigger] is_digit(s[i]),
    ensures
        digits_value(s.take(k)) <= digits_value(s),
    decreases s.len() - k,
{
    if k < s.len() {
        lemma_digits_grow(s, k + 1);
        assert(s.take(k + 1).drop_last() =~= s.take(k));
    } else {
        assert(s.take(k) =~= s);
    }
}

/// Reads a text as a decimal number: an optional `+`, then digits only;
/// `None` for anything else and for a number too large for a `usize`.
pub fn parse_decimal(s: &str) -> (r: Option<usize>)
    ensures
        r == decimal_value(s@),
{
    let n = s.unicode_len();
    let mut start: usize = 0;
    if n > 0 && s.get_char(0) == '+' {
        start = 1;
    }
    let ghost d = unsigned_digits(s@);
    assert(d =~= s@.skip(start as int));
    if start >= n {
        return None;
    }
    let mut value: usize = 0;
    let mut i: usize = start;
    while i < n
        invariant
            start <= i <= n == s@.len(),
            d == s@.skip(start as int),
            d == unsigned_digits(s@),
            forall|t: int| 0 <= t < i - start ==> #[trigger] is_digit(d[t]),
            value == digits_value(d.take(i - start)),
        decreases n - i,
    {
        let c = s.get_char(i);
        let ghost k: int = i - start;
        assert(d[k] == c);
        if !('0' <= c && c <= '9') {
            assert(!is_digit(d[k]));
            assert(!(forall|t: int| 0 <= t < d.len() ==> #[trigger] is_digit(d[t])));
            return None;
        }
        let digit: usize = ((c as u32) - ('0' as u32)) as usize;
        assert(d.take(k + 1).drop_last() =~= d.take(k));
        assert(d.take(k + 1).last() == c);
        assert(digits_value(d.take(k + 1)) == value * 10 + digit);
        let m = value.checked_mul(10);
        let next = match m {
            Some(m) => m.checked_add(digit),
            None => None,
        };
        match next {
            Some(v) => {
                value = v;
            },
            None => {
                proof {
                    if forall|t: int| 0 <= t < d.len() ==> #[trigger] is_digit(d[t]) {
                        lemma_digits_grow(d, i - start + 1);
                    }
                }
                return None;
            },
        }
        i = i + 1;
    }
    assert(d.take(n - start) =~= d);
    Some(value)
}

/// Whether a trimmed line asks to save: it begins with `S` and a space.
pub open spec fn is_save_line(t: Seq<char>) -> bool {
    t.len() >= 2 && t[0] == 'S' && t[1] == ' '
}

/// Reads a line typed at the preset menu. The line is trimmed first; `P`
/// and `R` stand alone, `S ` and a name (trimmed again) saves, and a decimal
/// number selects.
pub fn parse_command(line: &str) -> (r: MenuCommand)
    ensures
        ({
            let t = trimmed(line@);
            if t == "P"@ {
                r is ShowParams
            } else if t == "R"@ {
                r is Reload
            } else if is_save_line(t) {
                r matches MenuCommand::Save(name) && name@ == trimmed(t.skip(2))
            } else {
                match decimal_value(t) {
                    Some(v) => r matches MenuCommand::Select(n) && n == v,
                    None => r is Invalid,
                }
            }
        }),
{
    let t = trim(line);
    if text_eq(t, "P") {
        MenuCommand::ShowParams
    } else if text_eq(t, "R") {
        MenuCommand::Reload
    } else {
        let n = t.unicode_len();
        if n >= 2 && t.get_char(0) == 'S' && t.get_char(1) == ' ' {
            let rest = t.substring_char(2, n);
            assert(rest@ =~= t@.skip(2));
            let name = trim(rest);
            MenuCommand::Save(name.to_owned())
        } else {
            match parse_decimal(t) {
                Some(v) => MenuCommand::Select(v),
                None => MenuCommand::Invalid,
            }
        }
    }
}

/// The position in the preset list of the preset with a one-based number;
/// `None` for zero and for a number past the end of the list.
pub fn preset_slot(number: usize, n_presets: usize) -> (r: Option<usize>)
    ensures
        r == if 1 <= number <= n_presets {
            Some((number - 1) as usize)
        } else {
            None::<usize>
        },
{
    if number == 0 {
        None
    } else if number - 1 < n_presets {
        Some(number - 1)
    } else {
        None
    }
}

} // verus!
