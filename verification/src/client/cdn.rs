//! Content deployment.

use vstd::prelude::*;

verus! {

/// The source of content that is not on the host. Nothing is deployed from
/// elsewhere yet.
#[derive(Clone, Copy, Debug)]
pub struct CContentDeployment;

} // verus!
