//! Building the text of lexemes and diagnostics.

use vstd::prelude::*;
use vstd::string::StrSliceExecFns;

verus! {

/// What `str`'s `Debug` formatting prints for the text `s`: the text in
/// double quotes, with std's escapes.
pub uninterp spec fn str_debug_text(s: Seq<char>) -> Seq<char>;

/// What `char`'s `Debug` formatting prints for `c`: the character in single
/// quotes, with std's escapes.
pub uninterp spec fn char_debug_text(c: char) -> Seq<char>;

/// The characters that `str::escape_debug` yields for the text `s`.
pub uninterp spec fn str_escaped_text(s: Seq<char>) -> Seq<char>;

/// The characters that `char::escape_debug` yields for `c`.
pub uninterp spec fn char_escaped_text(c: char) -> Seq<char>;

/// The text that `String::from_utf8_lossy` decodes from `bytes`.
pub uninterp spec fn utf8_lossy_text(bytes: Seq<u8>) -> Seq<char>;

/// `String::push` appends one character to the string.
pub assume_specification[ std::string::String::push ](s: &mut std::string::String, c: char)
    ensures
        final(s)@ == old(s)@.push(c),
;

/// Formats `s` with std's `Debug` for `str`. The result depends on the text
/// alone; the contract gives it a name and says no more of it.
#[verifier::external_body]
pub(crate) fn str_debug(s: &str) -> (text: String)
    ensures
        text@ == str_debug_text(s@),
{
    format!("{:?}", s)
}

/// Formats `c` with std's `Debug` for `char`. The result depends on the
/// character alone; the contract gives it a name and says no more of it.
#[verifier::external_body]
pub(crate) fn char_debug(c: char) -> (text: String)
    ensures
        text@ == char_debug_text(c),
{
    format!("{:?}", c)
}

/// Collects `str::escape_debug` of `s` into a string. The result depends on
/// the text alone; the contract gives it a name and says no more of it.
#[verifier::external_body]
pub(crate) fn str_escaped(s: &str) -> (text: String)
    ensures
        text@ == str_escaped_text(s@),
{
    s.escape_debug().collect()
}

/// Collects `char::escape_debug` of `c` into a string. The result depends
/// on the character alone; the contract gives it a name and says no more of
/// it.
#[verifier::external_body]
pub(crate) fn char_escaped(c: char) -> (text: String)
    ensures
        text@ == char_escaped_text(c),
{
    c.escape_debug().collect()
}

/// Decodes `bytes` with `String::from_utf8_lossy`, which replaces each
/// invalid sequence by U+FFFD. The result depends on the bytes alone; the
/// contract gives it a name and says no more of it.
#[verifier::external_body]
pub(crate) fn utf8_lossy(bytes: &[u8]) -> (text: String)
    ensures
        text@ == utf8_lossy_text(bytes@),
{
    String::from_utf8_lossy(bytes).into_owned()
}

/// The character of a decimal digit `d < 10`.
pub open spec fn digit_char(d: nat) -> char {
    ((48 + d) as u8) as char
}

/// The decimal digits of a natural number, most significant first.
pub open spec fn digits_text(n: nat) -> Seq<char>
    decreases n,
{
    if n < 10 {
        seq![digit_char(n)]
    } else {
        digits_text(n / 10).push(digit_char(n % 10))
    }
}

/// The decimal text of an integer, with a minus sign when it is negative.
pub open spec fn decimal_text(n: int) -> Seq<char> {
    if n < 0 {
        seq!['-'] + digits_text((-n) as nat)
    } else {
        digits_text(n as nat)
    }
}

/// Appends the decimal digits of `n` to `out`.
pub fn push_digits(out: &mut String, n: u64)
    ensures
        final(out)@ == old(out)@ + digits_text(n as nat),
    decreases n,
{
    if n >= 10 {
        push_digits(out, n / 10);
    }
    let d: u8 = (n % 10) as u8;
    out.push((48 + d) as char);
    proof {
        if n >= 10 {
            assert(old(out)@ + digits_text((n / 10) as nat).push(digit_char((n % 10) as nat))
                =~= (old(out)@ + digits_text((n / 10) as nat)).push(digit_char((n % 10) as nat)));
        } else {
            assert(old(out)@ + seq![digit_char(n as nat)] =~= old(out)@.push(digit_char(n as nat)));
        }
    }
}

/// Appends the decimal text of `n` to `out`.
pub fn push_decimal(out: &mut String, n: i64)
    ensures
        final(out)@ == old(out)@ + decimal_text(n as int),
{
    if n < 0 {
        out.push('-');
        let magnitude: u64 = if n == i64::MIN { 9223372036854775808u64 } else { (-n) as u64 };
        push_digits(out, magnitude);
        assert(final(out)@ =~= old(out)@ + (seq!['-'] + digits_text((-n) as nat)));
    } else {
        push_digits(out, n as u64);
    }
}

/// Whether two texts hold the same characters.
pub fn same_text(a: &str, b: &str) -> (same: bool)
    ensures
        same == (a@ == b@),
{
    let n = a.unicode_len();
    if n != b.unicode_len() {
        return false;
    }
    let mut i: usize = 0;
    while i < n
        invariant
            i <= n,
            n == a@.len(),
            n == b@.len(),
            forall|k: int| 0 <= k < i ==> a@[k] == b@[k],
        decreases n - i,
    {
        if a.get_char(i) != b.get_char(i) {
            return false;
        }
        i += 1;
    }
    assert(a@ =~= b@);
    true
}

} // verus!
