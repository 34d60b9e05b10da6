//! Display strings for single bytes.

use crate::text::{hex_pair, push_hex_pair};
use vstd::prelude::*;
use vstd::string::*;

verus! {

/// The text of a byte without highlighting: one space on each side of its digits.
pub open spec fn plain_text(byte: u8) -> Seq<char> {
    seq![' '] + hex_pair(byte) + seq![' ']
}

/// The escape sequence that switches highlighting off again.
pub open spec fn ansi_reset() -> Seq<char> {
    seq!['\x1b', '[', '0', 'm']
}

/// The escape sequence that selects bright red.
pub open spec fn ansi_red() -> Seq<char> {
    seq!['\x1b', '[', '9', '1', 'm']
}

/// The escape sequence that selects bright green.
pub open spec fn ansi_green() -> Seq<char> {
    seq!['\x1b', '[', '9', '2', 'm']
}

/// The text of a byte that changed in the current step: bright red on a
/// terminal, square brackets elsewhere.
pub open spec fn red_text(byte: u8, ansi: bool) -> Seq<char> {
    if ansi {
        ansi_red() + hex_pair(byte) + ansi_reset()
    } else {
        seq!['['] + hex_pair(byte) + seq![']']
    }
}

/// The text of a watched byte that nothing has touched yet: bright green on a
/// terminal, round brackets elsewhere.
pub open spec fn green_text(byte: u8, ansi: bool) -> Seq<char> {
    if ansi {
        ansi_green() + hex_pair(byte) + ansi_reset()
    } else {
        seq!['('] + hex_pair(byte) + seq![')']
    }
}

/// Formats a byte that changed in the current step. `ansi` says whether the
/// output goes to a terminal that understands colour escapes.
pub fn red(byte: u8, ansi: bool) -> (s: String)
    ensures
        s@ == red_text(byte, ansi),
{
    if ansi {
        let mut s = String::from_str("\x1b[91m");
        proof {
            reveal_strlit("\x1b[91m");
            reveal_strlit("\x1b[0m");
            assert("\x1b[91m"@ =~= ansi_red());
            assert("\x1b[0m"@ =~= ansi_reset());
        }
        push_hex_pair(&mut s, byte);
        s.append("\x1b[0m");
        s
    } else {
        let mut s = String::from_str("[");
        proof {
            reveal_strlit("[");
            reveal_strlit("]");
            assert("["@ =~= seq!['[']);
            assert("]"@ =~= seq![']']);
        }
        push_hex_pair(&mut s, byte);
        s.append("]");
        s
    }
}

/// Formats a watched byte that has not been corrupted yet. `ansi` says whether
/// the output goes to a terminal that understands colour escapes.
pub fn green(byte: u8, ansi: bool) -> (s: String)
    ensures
        s@ == green_text(byte, ansi),
{
    if ansi {
        let mut s = String::from_str("\x1b[92m");
        proof {
            reveal_strlit("\x1b[92m");
            reveal_strlit("\x1b[0m");
            assert("\x1b[92m"@ =~= ansi_green());
            assert("\x1b[0m"@ =~= ansi_reset());
        }
        push_hex_pair(&mut s, byte);
        s.append("\x1b[0m");
        s
    } else {
        let mut s = String::from_str("(");
        proof {
            reveal_strlit("(");
            reveal_strlit(")");
            assert("("@ =~= seq!['(']);
            assert(")"@ =~= seq![')']);
        }
        push_hex_pair(&mut s, byte);
        s.append(")");
        s
    }
}

/// Formats a byte with no highlighting.
pub fn plain(byte: u8) -> (s: String)
    ensures
        s@ == plain_text(byte),
{
    let mut s = String::from_str(" ");
    proof {
        reveal_strlit(" ");
        assert(" "@ =~= seq![' ']);
    }
    push_hex_pair(&mut s, byte);
    s.append(" ");
    s
}

} // verus!
