//! The input bridge: what the listener does with each line it reads.

use vstd::prelude::*;

verus! {

/// What the listener does after one read from its source.
#[derive(Clone, Debug, PartialEq, Eq)]
pub enum Heard {
    /// The source is at its end: the listener stops.
    Closed,
    /// Nothing is left of the line without its terminator: nothing is
    /// forwarded.
    Blank,
    /// The text to forward to the render loop.
    Text(String),
}

/// `line` without the newline that ends it, if one does.
pub open spec fn without_terminator(line: Seq<char>) -> Seq<char> {
    if line.len() > 0 && line.last() == '\n' {
        line.drop_last()
    } else {
        line
    }
}

/// Decides what the listener does with a read that took `bytes_read` bytes
/// and gave `line`. A read of no bytes is the end of the input. Any other line
/// is forwarded without its terminator, unless nothing is left of it then.
pub fn on_read(bytes_read: usize, line: &str) -> (heard: Heard)
    ensures
        heard is Closed <==> bytes_read == 0,
        heard is Blank <==> bytes_read > 0 && without_terminator(line@).len() == 0,
        heard matches Heard::Text(text) ==> text@ == without_terminator(line@) && text@.len() > 0,
{
    if bytes_read == 0 {
        return Heard::Closed;
    }
    let len = line.unicode_len();
    let kept = if len > 0 && line.get_char(len - 1) == '\n' {
        len - 1
    } else {
        len
    };
    if kept == 0 {
        Heard::Blank
    } else {
        let text = line.substring_char(0, kept).to_owned();
        assert(text@ =~= without_terminator(line@));
        Heard::Text(text)
    }
}

} // verus!
