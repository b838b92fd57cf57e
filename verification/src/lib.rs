//! Verified core of a storage gateway that redirects clients to presigned
//! URLs of S3-compatible backends.
use vstd::prelude::*;

pub mod assoc;
pub mod audience;
pub mod authn;
pub mod authz;
pub mod backend;
pub mod config;
pub mod endpoints;
pub mod error;
pub mod jws;
pub mod labels;
pub mod s3;
pub mod sign;
pub mod tag;
pub mod text;

verus! {
} // verus!
