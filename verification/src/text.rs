//! Building blocks for the display strings: digits and padding.

use vstd::prelude::*;
use vstd::string::*;

verus! {

/// The sixteen lowercase hexadecimal digits, in order of value. The first ten
/// are the decimal digits.
pub open spec fn hex_alphabet() -> Seq<char> {
    seq!['0', '1', '2', '3', '4', '5', '6', '7', '8', '9', 'a', 'b', 'c', 'd', 'e', 'f']
}

/// The two lowercase hexadecimal digits of `byte`, high nibble first.
pub open spec fn hex_pair(byte: u8) -> Seq<char> {
    seq![hex_alphabet()[byte as int / 16], hex_alphabet()[byte as int % 16]]
}

/// The decimal digits of `n`, most significant first, without leading zeros.
pub open spec fn decimal_text(n: nat) -> Seq<char>
    decreases n,
{
    if n < 10 {
        seq![hex_alphabet()[n as int]]
    } else {
        decimal_text(n / 10) + seq![hex_alphabet()[n as int % 10]]
    }
}

/// `n` spaces.
pub open spec fn spaces(n: nat) -> Seq<char> {
    Seq::new(n, |i: int| ' ')
}

/// `text` followed by as many spaces as it takes to reach `width` characters;
/// a longer text is left as it is.
pub open spec fn pad_right(text: Seq<char>, width: nat) -> Seq<char> {
    if text.len() < width {
        text + spaces((width - text.len()) as nat)
    } else {
        text
    }
}

/// One digit as a string slice.
pub fn digit_str(value: u8) -> (s: &'static str)
    requires
        value < 16,
    ensures
        s@ == seq![hex_alphabet()[value as int]],
{
    let digits = "0123456789abcdef";
    proof {
        reveal_strlit("0123456789abcdef");
        assert(digits@ =~= hex_alphabet());
    }
    let d = digits.substring_ascii(value as usize, value as usize + 1);
    assert(d@ =~= seq![hex_alphabet()[value as int]]);
    d
}

/// Appends the two hexadecimal digits of `byte` to `out`.
pub fn push_hex_pair(out: &mut String, byte: u8)
    ensures
        final(out)@ == old(out)@ + hex_pair(byte),
{
    out.append(digit_str(byte / 16));
    out.append(digit_str(byte % 16));
    assert(out@ =~= old(out)@ + hex_pair(byte));
}

/// Appends the decimal digits of `n` to `out`.
pub fn push_decimal(out: &mut String, n: usize)
    ensures
        final(out)@ == old(out)@ + decimal_text(n as nat),
    decreases n,
{
    if n >= 10 {
        push_decimal(out, n / 10);
    }
    out.append(digit_str((n % 10) as u8));
    assert(out@ =~= old(out)@ + decimal_text(n as nat));
}

/// Appends `text` to `out` and pads it with spaces to `width` characters.
pub fn push_padded(out: &mut String, text: &str, width: usize)
    ensures
        final(out)@ == old(out)@ + pad_right(text@, width as nat),
{
    out.append(text);
    let len: usize = text.unicode_len();
    let mut n: usize = len;
    assert(out@ =~= old(out)@ + text@ + spaces(0));
    while n < width
        invariant
            len == text@.len(),
            len <= n,
            n <= width || n == len,
            out@ == old(out)@ + text@ + spaces((n - len) as nat),
        decreases width - n,
    {
        out.append(" ");
        proof {
            reveal_strlit(" ");
            assert(" "@ =~= seq![' ']);
            assert(spaces((n - len) as nat) + seq![' '] =~= spaces((n + 1 - len) as nat));
            assert(out@ =~= old(out)@ + text@ + spaces((n + 1 - len) as nat));
        }
        n += 1;
    }
    assert(out@ =~= old(out)@ + pad_right(text@, width as nat));
}

} // verus!
