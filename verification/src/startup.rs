//! What the service finds out and prints before it starts to listen.

use vstd::prelude::*;
use vstd::string::StringExecFns;
use thousands::Separable;
use crate::decimal::{decimal, digit_char, to_decimal};

verus! {

/// Declares `std::io::Error`, the error of `rlimit::getrlimit`, as a type
/// whose values are carried through unread.
#[verifier::external_type_specification]
#[verifier::external_body]
pub struct ExIoError(std::io::Error);

/// The three digits of `n`, for `n < 1000`, with leading zeros.
pub open spec fn three_digits(n: nat) -> Seq<char> {
    seq![digit_char(n / 100 % 10), digit_char(n / 10 % 10), digit_char(n % 10)]
}

/// The decimal notation of `n` with a comma before every group of three
/// digits, counted from the right.
pub open spec fn grouped(n: nat) -> Seq<char>
    decreases n,
{
    if n < 1000 {
        decimal(n)
    } else {
        grouped(n / 1000) + seq![','] + three_digits(n % 1000)
    }
}

/// How the limit on open files is shown: the number with commas, or
/// `unknown` where it could not be found out.
pub open spec fn limit_text(limit: Result<u64, String>) -> Seq<char> {
    match limit {
        Ok(n) => grouped(n as nat),
        Err(_) => "unknown"@,
    }
}

/// The line printed when the service starts to listen.
pub open spec fn banner_text(port: u16, limit: Result<u64, String>) -> Seq<char> {
    "Listening on port "@ + decimal(port as nat) + ", file limit "@ + limit_text(limit)
        + " ..."@
}

/// Calls `thousands::Separable::separate_with_commas` on a `u64`.
///
/// Trusted: the result is the decimal notation of `n` with a comma inserted
/// every three digits from the right, and nothing else.
#[verifier::external_body]
fn separate_with_commas(n: u64) -> (text: String)
    ensures
        text@ == grouped(n as nat),
{
    n.separate_with_commas()
}

/// Calls `rlimit::getrlimit` for `Resource::NOFILE`.
///
/// Trusted: the call returns. The soft and the hard limit, or the error, are
/// whatever the operating system says at that moment, so nothing is claimed
/// of them.
#[verifier::external_body]
fn getrlimit_nofile() -> (limits: Result<(u64, u64), std::io::Error>) {
    rlimit::getrlimit(rlimit::Resource::NOFILE)
}

/// Whether `limit` is what the service makes of the answer `limits` to the
/// query for both limits: the soft limit where the query succeeded, else
/// the text that the error displays as.
pub open spec fn limit_of(
    limits: Result<(u64, u64), std::io::Error>,
    limit: Result<u64, String>,
) -> bool {
    match limits {
        Ok(pair) => limit == Ok::<u64, String>(pair.0),
        Err(e) => {
            &&& limit is Err
            &&& vstd::string::to_string_from_display_ensures::<std::io::Error>(
                &e,
                limit->Err_0,
            )
        },
    }
}

/// Picks the soft limit out of what the query for both limits gave, and
/// turns a failure into the text that the error displays as.
pub fn soft_limit(limits: Result<(u64, u64), std::io::Error>) -> (limit: Result<u64, String>)
    ensures
        limit_of(limits, limit),
{
    match limits {
        Ok((soft, _)) => Ok(soft),
        Err(e) => Err(e.to_string()),
    }
}

/// Asks the operating system how many files this process may hold open.
///
/// Which answer the system gives is its own matter, and a failure is an
/// answer like any other. The result is what `soft_limit` makes of that
/// answer: the soft limit, or the error as text.
pub fn open_file_limit() -> (limit: Result<u64, String>)
    ensures
        exists|limits: Result<(u64, u64), std::io::Error>| #[trigger] limit_of(limits, limit),
{
    let answer = getrlimit_nofile();
    let ghost asked = answer;
    let limit = soft_limit(answer);
    assert(limit_of(asked, limit));
    limit
}

/// Composes how the limit on open files is shown.
pub fn limit_msg(limit: Result<u64, String>) -> (msg: String)
    ensures
        msg@ == limit_text(limit),
{
    match limit {
        Ok(n) => separate_with_commas(n),
        Err(_) => String::from_str("unknown"),
    }
}

/// Composes the line printed when the service starts to listen.
pub fn banner_msg(port: u16, limit: Result<u64, String>) -> (msg: String)
    ensures
        msg@ == banner_text(port, limit),
{
    let mut msg = String::from_str("Listening on port ");
    msg.append(to_decimal(port as u64).as_str());
    msg.append(", file limit ");
    msg.append(limit_msg(limit).as_str());
    msg.append(" ...");
    msg
}

} // verus!
