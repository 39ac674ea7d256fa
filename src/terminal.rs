//! Control sequences and text building blocks for drawing a frame.
use vstd::prelude::*;
use vstd::string::*;

verus! {

/// The character a decimal digit `d < 10` is written with.
pub open spec fn digit(d: nat) -> char {
    ((48 + d) as u8) as char
}

/// A natural number written in decimal, without leading zeros.
pub open spec fn decimal(n: nat) -> Seq<char>
    decreases n,
{
    if n < 10 {
        seq![digit(n)]
    } else {
        decimal(n / 10).push(digit(n % 10))
    }
}

/// The escape sequence that moves the terminal cursor to column `col`
/// and row `row` (both one-based): `ESC [ row ; col H`.
pub open spec fn goto_seq(col: nat, row: nat) -> Seq<char> {
    seq!['\u{1b}', '['] + decimal(row) + seq![';'] + decimal(col) + seq!['H']
}

/// The escape sequence that clears the whole screen: `ESC [ 2 J`.
pub open spec fn clear_seq() -> Seq<char> {
    seq!['\u{1b}', '[', '2', 'J']
}

/// `piece` written `n` times in a row.
pub open spec fn repeat(piece: Seq<char>, n: nat) -> Seq<char>
    decreases n,
{
    if n == 0 {
        Seq::empty()
    } else {
        repeat(piece, (n - 1) as nat) + piece
    }
}

/// Relies on termion's `From<cursor::Goto> for String`, which writes
/// `ESC [`, the row in decimal, `;`, the column in decimal, and `H`.
#[verifier::external_body]
pub(crate) fn goto_code(col: u16, row: u16) -> (r: String)
    ensures
        r@ == goto_seq(col as nat, row as nat),
{
    String::from(termion::cursor::Goto(col, row))
}

/// Relies on termion's `clear::All`, whose text is `ESC [ 2 J`.
#[verifier::external_body]
pub(crate) fn clear_code() -> (r: String)
    ensures
        r@ == clear_seq(),
{
    let s: &str = AsRef::<str>::as_ref(&termion::clear::All);
    s.to_string()
}

/// Appends `piece` to `out` `n` times.
pub(crate) fn push_repeat(out: &mut String, piece: &str, n: u16)
    ensures
        final(out)@ == old(out)@ + repeat(piece@, n as nat),
{
    let mut i: u16 = 0;
    while i < n
        invariant
            i <= n,
            out@ == old(out)@ + repeat(piece@, i as nat),
        decreases n - i,
    {
        let ghost before = out@;
        out.append(piece);
        i = i + 1;
        assert(out@ =~= old(out)@ + repeat(piece@, i as nat)) by {
            assert(repeat(piece@, i as nat) == repeat(piece@, (i - 1) as nat) + piece@);
        }
    }
}

} // verus!
