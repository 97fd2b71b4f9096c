//! The texts that the service sends and prints.

use vstd::prelude::*;
use vstd::string::StringExecFns;
use crate::decimal::{decimal, to_decimal};

verus! {

/// What the service is, in one sentence.
pub const ABOUT_MSG: &'static str =
    "Starts an api server, which will simulate latency to requests with a given delay.";

/// The port that the service listens on when none is given.
pub const DEFAULT_PORT: u16 = 3000;

/// The address that asks a service on `port` for a delay of one second.
pub open spec fn example_url(port: u16) -> Seq<char> {
    "http://localhost:"@ + decimal(port as nat) + "/1000"@
}

/// The usage example for a service that listens on `port`.
pub open spec fn example_text(port: u16) -> Seq<char> {
    "Example: curl "@ + example_url(port) + ", will response after 1 second of delay."@
}

/// The body that answers a delay request once its wait is over.
pub open spec fn waited_text(millis: u64) -> Seq<char> {
    "waited "@ + decimal(millis as nat) + " milliseconds."@
}

/// The body that answers a segment that is no delay.
pub open spec fn refusal_text(port: u16) -> Seq<char> {
    "please provide a valid duration, "@ + example_text(port)
}

/// The line that records the `count`-th delay request.
pub open spec fn log_text(count: u64, millis: u64) -> Seq<char> {
    "#"@ + decimal(count as nat) + ": wait for "@ + decimal(millis as nat) + "ms ..."@
}

/// The description shown by the command line's help.
pub open spec fn about_text() -> Seq<char> {
    ABOUT_MSG@ + "\n\n"@ + example_text(DEFAULT_PORT)
}

/// Whether `part` stands somewhere in `text`, as one piece.
pub open spec fn holds(text: Seq<char>, part: Seq<char>) -> bool {
    exists|at: int|
        0 <= at && at + part.len() <= text.len() && #[trigger] text.subrange(
            at,
            at + part.len(),
        ) == part
}

/// The usage example and the refusal both hold the example address, and
/// the example address holds the port in decimal notation.
pub proof fn lemma_texts_hold_the_example_url(port: u16)
    ensures
        holds(example_url(port), decimal(port as nat)),
        holds(example_text(port), example_url(port)),
        holds(refusal_text(port), example_url(port)),
        holds(refusal_text(port), example_text(port)),
{
    let number = decimal(port as nat);
    let url = example_url(port);
    let usage = example_text(port);
    let refusal = refusal_text(port);
    let scheme = "http://localhost:"@.len() as int;
    let curl = "Example: curl "@.len() as int;
    let plea = "please provide a valid duration, "@.len() as int;
    assert(url.subrange(scheme, scheme + number.len()) =~= number);
    assert(usage.subrange(curl, curl + url.len()) =~= url);
    assert(refusal.subrange(plea + curl, plea + curl + url.len()) =~= url);
    assert(refusal.subrange(plea, plea + usage.len()) =~= usage);
}

/// Composes the usage example for a service that listens on `port`.
pub fn example_msg(port: u16) -> (msg: String)
    ensures
        msg@ == example_text(port),
{
    let mut url = String::from_str("http://localhost:");
    url.append(to_decimal(port as u64).as_str());
    url.append("/1000");
    let mut msg = String::from_str("Example: curl ");
    msg.append(url.as_str());
    msg.append(", will response after 1 second of delay.");
    msg
}

/// Composes the body that echoes the delay back.
pub fn waited_msg(millis: u64) -> (msg: String)
    ensures
        msg@ == waited_text(millis),
{
    let mut msg = String::from_str("waited ");
    msg.append(to_decimal(millis).as_str());
    msg.append(" milliseconds.");
    msg
}

/// Composes the body that guides a caller whose segment is no delay.
pub fn refusal_msg(port: u16) -> (msg: String)
    ensures
        msg@ == refusal_text(port),
{
    let mut msg = String::from_str("please provide a valid duration, ");
    msg.append(example_msg(port).as_str());
    msg
}

/// Composes the line that records the `count`-th delay request.
pub fn log_msg(count: u64, millis: u64) -> (msg: String)
    ensures
        msg@ == log_text(count, millis),
{
    let mut msg = String::from_str("#");
    msg.append(to_decimal(count).as_str());
    msg.append(": wait for ");
    msg.append(to_decimal(millis).as_str());
    msg.append("ms ...");
    msg
}

/// Composes the description shown by the command line's help.
pub fn about_msg() -> (msg: String)
    ensures
        msg@ == about_text(),
{
    let mut msg = String::from_str(ABOUT_MSG);
    msg.append("\n\n");
    msg.append(example_msg(DEFAULT_PORT).as_str());
    msg
}

} // verus!
