//! Text on its way to the terminal.

use vstd::prelude::*;

use crate::text::to_chars;

verus! {

/// A text with a line break behind it.
pub open spec fn as_line(text: Seq<char>) -> Seq<char> {
    text.push('\n')
}

/// A text with a line break at its end.
pub open spec fn as_block(text: Seq<char>) -> Seq<char> {
    if text.len() > 0 && text.last() == '\n' {
        text
    } else {
        text.push('\n')
    }
}

/// A text with a carriage return before each line break.
pub open spec fn with_returns(text: Seq<char>) -> Seq<char>
    decreases text.len(),
{
    if text.len() == 0 {
        text
    } else if text.last() == '\n' {
        with_returns(text.drop_last()).push('\r').push('\n')
    } else {
        with_returns(text.drop_last()).push(text.last())
    }
}

/// Appends a line.
pub fn write_output_line(out: &mut String, line: &str)
    ensures
        final(out)@ == old(out)@ + as_line(line@),
{
    out.append(line);
    out.push('\n');
    assert(out@ =~= old(out)@ + as_line(line@));
}

/// Appends a text, and a line break if it does not end in one.
pub fn write_output_block(out: &mut String, text: &str)
    ensures
        final(out)@ == old(out)@ + as_block(text@),
{
    let c = to_chars(text);
    out.append(text);
    if !(c.len() > 0 && c[c.len() - 1] == '\n') {
        out.push('\n');
    }
    assert(out@ =~= old(out)@ + as_block(text@));
}

/// The text to send: a terminal in raw mode needs a carriage return before each line break.
pub fn write_output_text(text: &str, terminal: bool) -> (r: String)
    ensures
        r@ == (if terminal {
            with_returns(text@)
        } else {
            text@
        }),
{
    if !terminal {
        return String::from_str(text);
    }
    let c = to_chars(text);
    let mut out = String::new();
    for i in 0..c.len()
        invariant
            c@ == text@,
            out@ == with_returns(text@.take(i as int)),
    {
        proof {
            assert(text@.take(i + 1).drop_last() =~= text@.take(i as int));
            assert(text@.take(i + 1).last() == text@[i as int]);
        }
        if c[i] == '\n' {
            out.push('\r');
        }
        out.push(c[i]);
    }
    assert(text@.take(text@.len() as int) =~= text@);
    out
}

} // verus!
