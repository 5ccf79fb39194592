//! Strings as sequences of characters.

use vstd::prelude::*;
use vstd::string::StringExecFns;

verus! {

/// The characters of `text`, in order.
pub fn chars_of(text: &str) -> (chars: Vec<char>)
    ensures
        chars@ == text@,
{
    let mut chars: Vec<char> = Vec::new();
    for c in it: text.chars()
        invariant
            it.seq() == text@,
            chars@ == text@.subrange(0, it.index() as int),
    {
        chars.push(c);
        assert(chars@ == text@.subrange(0, it.index() + 1));
    }
    assert(chars@ == text@);
    chars
}

/// Whether `char::is_alphanumeric` holds of `c`: whether Unicode counts it
/// among the letters or the numbers.
pub uninterp spec fn alphanumeric(c: char) -> bool;

/// The characters that `char::escape_unicode` yields for `c`: its code
/// point in hexadecimal between `\u{` and `}`.
pub uninterp spec fn unicode_escape(c: char) -> Seq<char>;

/// Calls `char::is_alphanumeric`.
#[verifier::external_body]
fn is_alphanumeric(c: char) -> (res: bool)
    ensures
        res == alphanumeric(c),
{
    c.is_alphanumeric()
}

/// Calls `char::escape_unicode` and collects the characters it yields.
#[verifier::external_body]
fn escape_unicode(c: char) -> (res: String)
    ensures
        res@ == unicode_escape(c),
{
    c.escape_unicode().to_string()
}

/// Calls `String::push`, which appends one character.
#[verifier::external_body]
pub(crate) fn push_char(text: &mut String, c: char)
    ensures
        final(text)@ == old(text)@.push(c),
{
    text.push(c)
}

/// Whether `c` is a visible ASCII character: one from `!` to `~`.
pub open spec fn ascii_graphic(c: char) -> bool {
    '!' <= c && c <= '~'
}

/// Whether `c` stands for itself in a file name: a visible ASCII character
/// other than the two separators, a space, or a letter or number of any
/// script.
pub open spec fn plain(c: char) -> bool {
    c != '\\' && ((ascii_graphic(c) && c != '/') || c == ' ' || alphanumeric(c))
}

/// What stands for `c` in an escaped name: a backslash is doubled, a plain
/// character stands for itself and any other is written as its Unicode
/// escape.
pub open spec fn escaped_char(c: char) -> Seq<char> {
    if c == '\\' {
        seq!['\\', '\\']
    } else if plain(c) {
        seq![c]
    } else {
        unicode_escape(c)
    }
}

/// The escaped form of a name: the escaped forms of its characters, in
/// order.
pub open spec fn escaped(name: Seq<char>) -> Seq<char>
    decreases name.len(),
{
    if name.len() == 0 {
        Seq::empty()
    } else {
        escaped(name.drop_last()) + escaped_char(name.last())
    }
}

/// Escapes a name so that it can be part of a path and be read back.
pub fn escape(name: &str) -> (result: String)
    ensures
        result@ == escaped(name@),
{
    let mut result = String::new();
    for c in it: name.chars()
        invariant
            it.seq() == name@,
            result@ == escaped(name@.subrange(0, it.index() as int)),
    {
        let ghost done = name@.subrange(0, it.index() as int);
        let ghost more = name@.subrange(0, it.index() + 1);
        assert(more.drop_last() == done);
        assert(more.last() == c);
        if c == '\\' {
            push_char(&mut result, '\\');
            push_char(&mut result, '\\');
            assert(result@ == escaped(done) + seq!['\\', '\\']);
        } else if ('!' <= c && c <= '~' && c != '/') || c == ' ' || is_alphanumeric(c) {
            push_char(&mut result, c);
            assert(result@ == escaped(done) + seq![c]);
        } else {
            let code = escape_unicode(c);
            result.append(code.as_str());
        }
    }
    assert(name@.subrange(0, name@.len() as int) == name@);
    result
}

/// Whether `needle` stands somewhere in `text`.
pub open spec fn occurs_in(needle: Seq<char>, text: Seq<char>) -> bool {
    exists|i: int|
        0 <= i <= text.len() - needle.len() && #[trigger] text.subrange(i, i + needle.len())
            == needle
}

/// Calls `str::contains` with a string: whether `needle` is a part of
/// `text`.
#[verifier::external_body]
pub(crate) fn contains(text: &str, needle: &str) -> (found: bool)
    ensures
        found == occurs_in(needle@, text@),
{
    text.contains(needle)
}

/// The character of a decimal digit.
pub open spec fn spec_digit(d: int) -> char {
    if d == 0 {
        '0'
    } else if d == 1 {
        '1'
    } else if d == 2 {
        '2'
    } else if d == 3 {
        '3'
    } else if d == 4 {
        '4'
    } else if d == 5 {
        '5'
    } else if d == 6 {
        '6'
    } else if d == 7 {
        '7'
    } else if d == 8 {
        '8'
    } else {
        '9'
    }
}

/// A number written in decimal digits, without leading zeros.
pub open spec fn spec_decimal(n: nat) -> Seq<char>
    decreases n,
{
    if n < 10 {
        seq![spec_digit(n as int)]
    } else {
        spec_decimal(n / 10).push(spec_digit((n % 10) as int))
    }
}

/// A number written in decimal digits, one after the other.
pub open spec fn digits_of(digits: Seq<u8>) -> Seq<char> {
    Seq::new(digits.len(), |i: int| spec_digit(digits[i] as int))
}

/// The character of a decimal digit.
pub fn digit(d: u8) -> (c: char)
    requires
        d < 10,
    ensures
        c == spec_digit(d as int),
{
    match d {
        0 => '0',
        1 => '1',
        2 => '2',
        3 => '3',
        4 => '4',
        5 => '5',
        6 => '6',
        7 => '7',
        8 => '8',
        _ => '9',
    }
}

/// Writes a number in decimal digits, without leading zeros.
pub fn decimal(n: u64) -> (text: String)
    ensures
        text@ == spec_decimal(n as nat),
{
    let mut low: Vec<u8> = Vec::new();
    let mut rest = n;
    while rest >= 10
        invariant
            forall|k: int| 0 <= k < low@.len() ==> #[trigger] low@[k] < 10,
            spec_decimal(n as nat) == spec_decimal(rest as nat) + digits_of(low@.reverse()),
        decreases rest,
    {
        let ghost before = low@;
        low.push((rest % 10) as u8);
        proof {
            let d = (rest % 10) as u8;
            assert(low@.reverse() =~= seq![d] + before.reverse());
            assert(digits_of(low@.reverse()) =~= seq![spec_digit(d as int)] + digits_of(
                before.reverse(),
            ));
            assert(spec_decimal(rest as nat) == spec_decimal((rest / 10) as nat).push(
                spec_digit(d as int),
            ));
            assert(spec_decimal(rest as nat) + digits_of(before.reverse()) =~= spec_decimal(
                (rest / 10) as nat,
            ) + digits_of(low@.reverse()));
        }
        rest = rest / 10;
    }
    let mut text = String::new();
    push_char(&mut text, digit(rest as u8));
    let mut i: usize = low.len();
    while i > 0
        invariant
            i <= low@.len(),
            forall|k: int| 0 <= k < low@.len() ==> #[trigger] low@[k] < 10,
            text@ == spec_decimal(rest as nat) + digits_of(low@.reverse()).subrange(
                0,
                low@.len() - i,
            ),
        decreases i,
    {
        let ghost before = text@;
        i -= 1;
        push_char(&mut text, digit(low[i]));
        proof {
            let all = digits_of(low@.reverse());
            let done = low@.len() - i - 1;
            assert(all[done] == spec_digit(low@[i as int] as int));
            assert(all.subrange(0, done + 1) =~= all.subrange(0, done).push(all[done]));
            assert(text@ =~= spec_decimal(rest as nat) + all.subrange(0, done + 1));
        }
    }
    proof {
        let all = digits_of(low@.reverse());
        assert(all.subrange(0, low@.len() as int) =~= all);
    }
    text
}

} // verus!
