//! Settings of the webhooks that follow a successful run.
use vstd::prelude::*;

verus! {

/// The HTTP method of a webhook.
#[derive(Debug, Clone, Copy, PartialEq, Eq, Structural)]
pub enum Method {
    Get,
    Post,
}

} // verus!
