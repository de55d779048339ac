//! The lines of the log.
//!
//! What the server does with a request counts as its output; everything else
//! is a message. So the lines of `get` and `req` are meant for the output
//! stream, and those of `error`, `warn` and `info` for the error stream.

use vstd::prelude::*;
use vstd::string::StringExecFns;

verus! {

/// The text `head` followed by the text `tail`.
fn line(head: &str, tail: &str) -> (text: String)
    ensures
        text@ == head@ + tail@,
{
    let mut text = head.to_owned();
    text.append(tail);
    text
}

/// The line for the error `e`.
pub fn error(e: &str) -> (text: String)
    ensures
        text@ == "[error] "@ + e@,
{
    line("[error] ", e)
}

/// The line for the warning `w`.
pub fn warn(w: &str) -> (text: String)
    ensures
        text@ == "[warn] "@ + w@,
{
    line("[warn] ", w)
}

/// The line for the information `i`.
pub fn info(i: &str) -> (text: String)
    ensures
        text@ == "[info] "@ + i@,
{
    line("[info] ", i)
}

/// The line that says what was done, `m`, with the GET request for `uri`.
pub fn get(uri: &str, m: &str) -> (text: String)
    ensures
        text@ == "[GET "@ + uri@ + "] "@ + m@,
{
    let mut text = line("[GET ", uri);
    text.append("] ");
    text.append(m);
    text
}

/// The line that says what was done, `m`, with a request that is no GET.
pub fn req(m: &str) -> (text: String)
    ensures
        text@ == "[!] "@ + m@,
{
    line("[!] ", m)
}

} // verus!
