//! What a terminal is sent between two renderings of the book.

use vstd::prelude::*;
use vstd::string::*;

verus! {

/// The escape character, with which a control sequence begins.
pub const ESCAPE: char = '\u{1b}';

/// The control sequences that wipe the screen and put the cursor into its
/// upper left corner: escape, `[2J`, escape, `[1;1H`.
pub open spec fn clear_sequence() -> Seq<char> {
    seq![ESCAPE, '[', '2', 'J', ESCAPE, '[', '1', ';', '1', 'H']
}

/// The text that clears a terminal when it is written to it.
pub fn clear() -> (text: String)
    ensures
        text@ == clear_sequence(),
{
    proof {
        reveal_strlit("\u{1b}[2J\u{1b}[1;1H");
        assert("\u{1b}[2J\u{1b}[1;1H"@ =~= clear_sequence());
    }
    String::from_str("\u{1b}[2J\u{1b}[1;1H")
}

} // verus!
