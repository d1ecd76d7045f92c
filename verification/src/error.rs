//! Errors of the proxy.

use vstd::prelude::*;

verus! {

/// Why a request could not be forwarded.
#[derive(Debug)]
pub enum ProxyError {
    /// The body is too large to be buffered.
    PayloadTooLarge(String),
}

} // verus!
