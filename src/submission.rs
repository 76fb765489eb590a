//! What the batch scheduler's submit command reports.
use crate::text::{parse_u32, unsigned_of};
use vstd::prelude::*;

verus! {

/// What the pattern `OAR_JOB_ID=(\d+)` captures in a submit command's output:
/// the digits after the first `OAR_JOB_ID=` that is followed by at least one
/// digit, where a digit is any character of Unicode's decimal digit class
/// (`\p{Nd}`), not only `0`-`9`.
pub uninterp spec fn job_id_capture_of(output: Seq<char>) -> Option<Seq<char>>;

/// Relies on `regex::Regex::captures` with the pattern `OAR_JOB_ID=(\d+)`:
/// the text of its first group in the first match, if any.
#[verifier::external_body]
fn job_id_capture(output: &str) -> (r: Option<String>)
    ensures
        match r {
            Some(d) => job_id_capture_of(output@) == Some(d@),
            None => job_id_capture_of(output@) is None,
        },
{
    let pattern = regex::Regex::new(r"OAR_JOB_ID=(\d+)").unwrap();
    pattern.captures(output).and_then(|c| c.get(1)).map(|m| m.as_str().to_string())
}

/// The job id that a captured run of digits gives, if it fits in 32 bits.
pub fn job_id_from_capture(capture: &Option<String>) -> (r: Option<u32>)
    ensures
        r == (match *capture {
            Some(d) => match unsigned_of(d@, u32::MAX as nat) {
                Some(v) => Some(v as u32),
                None => None::<u32>,
            },
            None => None::<u32>,
        }),
{
    match capture {
        Some(d) => parse_u32(d.as_str()),
        None => None,
    }
}

/// The job id that a submit command reports: none when the command failed
/// (`exit_ok` false) or its output holds no `OAR_JOB_ID=<digits>`.
pub fn oarsub_job_id(exit_ok: bool, output: &str) -> (r: Option<u32>)
    ensures
        !exit_ok ==> r is None,
        exit_ok ==> r == (match job_id_capture_of(output@) {
            Some(d) => match unsigned_of(d, u32::MAX as nat) {
                Some(v) => Some(v as u32),
                None => None::<u32>,
            },
            None => None::<u32>,
        }),
{
    if !exit_ok {
        return None;
    }
    let capture = job_id_capture(output);
    job_id_from_capture(&capture)
}

} // verus!
