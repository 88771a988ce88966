//! The diagnostic log's line format. Writing the lines (to stderr and to the
//! log file) is the caller's.

use vstd::prelude::*;
use crate::text::{decimal, decimal_string, decimal_value, law_decimal_denotes, str_concat};

verus! {

/// Name of the log file, written next to the executable.
pub const LOG_FILE_NAME: &'static str = "music-rpc.log";

/// The text of a log line: the time in Unix milliseconds in brackets, a
/// space, then the message.
pub open spec fn log_line_text(ts_ms: nat, msg: Seq<char>) -> Seq<char> {
    seq!['['] + decimal(ts_ms) + seq![']', ' '] + msg
}

/// Law: a log line is `[`, the time's decimal digits (denoting it), `] `,
/// then the whole message.
pub proof fn law_log_line_layout(ts_ms: nat, msg: Seq<char>)
    ensures
        ({
            let t = log_line_text(ts_ms, msg);
            let n = decimal(ts_ms).len() as int;
            &&& t[0] == '['
            &&& decimal_value(t.subrange(1, 1 + n)) == ts_ms
            &&& forall|i: int| 1 <= i < 1 + n ==> '0' <= #[trigger] t[i] <= '9'
            &&& t[1 + n] == ']' && t[2 + n] == ' '
            &&& t.skip(3 + n) == msg
            &&& t.len() == n + 3 + msg.len()
        }),
{
    law_decimal_denotes(ts_ms);
    let t = log_line_text(ts_ms, msg);
    let d = decimal(ts_ms);
    let n = d.len() as int;
    assert(t.subrange(1, 1 + n) =~= d);
    assert forall|i: int| 1 <= i < 1 + n implies '0' <= #[trigger] t[i] <= '9' by {
        assert(t[i] == d[i - 1]);
    }
    assert(t.skip(3 + n) =~= msg);
}

/// One timestamped diagnostic line, `[<ts_ms>] <msg>`.
pub fn log_line(ts_ms: u128, msg: &str) -> (r: String)
    ensures
        r@ == log_line_text(ts_ms as nat, msg@),
{
    let digits = decimal_string(ts_ms);
    let head = str_concat("[", digits.as_str());
    let head = str_concat(head.as_str(), "] ");
    proof {
        reveal_strlit("[");
        reveal_strlit("] ");
    }
    let r = str_concat(head.as_str(), msg);
    assert(r@ =~= log_line_text(ts_ms as nat, msg@));
    r
}

} // verus!
