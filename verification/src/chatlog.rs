//! The chat log sink's line format.
//!
//! One line is appended per received message, best effort: the program
//! around the library opens the log in append mode, writes the line, and
//! only reports a failure to the operator — dispatch never stops for it.

use vstd::prelude::*;

verus! {

use crate::text::{append_text, chars_of};

/// The log line for one message: `[timestamp] sender: text`, newline
/// terminated.
pub open spec fn log_line_spec(timestamp: Seq<char>, sender: Seq<char>, text: Seq<char>) -> Seq<
    char,
> {
    "["@ + timestamp + "] "@ + sender + ": "@ + text + "\n"@
}

/// Format the log line for one message.
pub fn log_line(timestamp: &Vec<char>, sender: &Vec<char>, text: &Vec<char>) -> (r: Vec<char>)
    ensures
        r@ == log_line_spec(timestamp@, sender@, text@),
{
    let mut r = chars_of("[");
    append_text(&mut r, timestamp);
    let mid = chars_of("] ");
    append_text(&mut r, &mid);
    append_text(&mut r, sender);
    let colon = chars_of(": ");
    append_text(&mut r, &colon);
    append_text(&mut r, text);
    let nl = chars_of("\n");
    append_text(&mut r, &nl);
    r
}

} // verus!
