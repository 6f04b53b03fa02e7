//! The two probes: one that answers, one that fails on purpose.

use vstd::prelude::*;
use crate::status::INTERNAL_SERVER_ERROR;

verus! {

/// The liveness probe's fixed text.
pub fn hello_world() -> (text: &'static str)
    ensures
        text@ == "Hello, world!"@,
{
    "Hello, world!"
}

/// The error probe: always the server-error status.
pub fn hello_error() -> (status: u16)
    ensures
        status == INTERNAL_SERVER_ERROR,
{
    INTERNAL_SERVER_ERROR
}

} // verus!
