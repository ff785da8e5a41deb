//! Declaration of serde_json's dynamically typed value, so that the
//! conversion into the template engine's globals can carry one; the value
//! stays opaque to the verifier.

use vstd::prelude::*;

verus! {

#[verifier::external_type_specification]
#[verifier::external_body]
pub struct ExJsonValue(serde_json::Value);

} // verus!
