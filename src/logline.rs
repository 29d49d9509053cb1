//! The shape of one line of the server's log.
use vstd::prelude::*;

verus! {

/// `[<timestamp>] [server] <message>`
pub open spec fn log_line_of(timestamp: Seq<char>, msg: Seq<char>) -> Seq<char> {
    "["@ + timestamp + "] [server] "@ + msg
}

/// One log line for a message at the given time.
pub fn log_line(timestamp: &str, msg: &str) -> (r: String)
    ensures
        r@ == log_line_of(timestamp@, msg@),
{
    let mut s = "[".to_owned();
    s.append(timestamp);
    s.append("] [server] ");
    s.append(msg);
    s
}

} // verus!
