//! Interpretation of the external stream resolver's output.
//!
//! The resolver is a separately installed command-line tool that, given a
//! public track page URL, prints one resolved stream URL. Launching it and
//! capturing its output is I/O and happens outside the library; what its
//! exit status and captured bytes mean is decided here.

use vstd::prelude::*;
use crate::text::{trim, trim_spec};

verus! {

/// Why the resolver bridge yielded no stream URL.
#[derive(Debug, Clone, PartialEq, Eq)]
pub enum ResolverError {
    /// The tool could not be launched at all.
    ResolverUnavailable,
    /// It ran and exited with a failure; its error output is kept.
    ResolverFailed(Vec<u8>),
    /// It exited cleanly but printed nothing usable.
    EmptyResult,
}

/// Interpret a finished resolver run. A failing exit keeps the error
/// output; a clean exit must have printed a non-blank URL, which is
/// returned with surrounding whitespace removed. (A launch that never
/// happened is reported as unavailable by the caller, which alone sees it.)
pub fn interpret_resolver_output(success: bool, stdout: Vec<u8>, stderr: Vec<u8>) -> (r: Result<
    Vec<u8>,
    ResolverError,
>)
    ensures
        !success ==> (r matches Err(ResolverError::ResolverFailed(m)) && m@ == stderr@),
        success && trim_spec(stdout@).len() == 0 ==> (r matches Err(ResolverError::EmptyResult)),
        success && trim_spec(stdout@).len() > 0 ==> (r matches Ok(u) && u@ == trim_spec(stdout@)),
{
    if !success {
        return Err(ResolverError::ResolverFailed(stderr));
    }
    let t = trim(stdout.as_slice());
    if t.len() == 0 {
        return Err(ResolverError::EmptyResult);
    }
    Ok(t)
}

} // verus!
