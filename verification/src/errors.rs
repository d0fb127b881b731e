//! The text of diagnostics. Nothing here prints: each function returns the
//! line that a front end would show, so that callers can collect, test or
//! display it as they see fit.
use crate::text::{decimal, decimal_text, push_str_of};
use vstd::prelude::*;

verus! {

/// The line shown for an error found at `line`, with `wh` saying where on
/// that line and `msg` saying what is wrong.
pub open spec fn report_text(line: nat, wh: Seq<char>, msg: Seq<char>) -> Seq<char> {
    "line[ "@ + decimal(line) + " ] Error "@ + wh + " : "@ + msg
}

/// The line shown for an error raised while a program runs.
pub open spec fn runtime_error_text(line: nat, msg: Seq<char>) -> Seq<char> {
    "line[ "@ + decimal(line) + " ] Runtime Error : "@ + msg
}

/// The diagnostic for an error at `line` with no further location.
pub fn error(line: usize, msg: &str) -> (out: String)
    ensures
        out@ == report_text(line as nat, Seq::empty(), msg@),
{
    report(line, String::new(), msg)
}

/// The diagnostic for an error at `line`, located by `wh`.
pub fn report(line: usize, wh: String, msg: &str) -> (out: String)
    ensures
        out@ == report_text(line as nat, wh@, msg@),
{
    let mut out = String::new();
    out.append("line[ ");
    let number = decimal_text(line);
    push_str_of(&mut out, &number);
    out.append(" ] Error ");
    push_str_of(&mut out, &wh);
    out.append(" : ");
    out.append(msg);
    assert(out@ =~= report_text(line as nat, wh@, msg@));
    out
}

/// The diagnostic for an error raised at run time.
pub fn runtime_error(line: usize, msg: &str) -> (out: String)
    ensures
        out@ == runtime_error_text(line as nat, msg@),
{
    let mut out = String::new();
    out.append("line[ ");
    let number = decimal_text(line);
    push_str_of(&mut out, &number);
    out.append(" ] Runtime Error : ");
    out.append(msg);
    assert(out@ =~= runtime_error_text(line as nat, msg@));
    out
}

} // verus!
