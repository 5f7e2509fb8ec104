//! Verified core of an arcade-cabinet onboard runtime: catalog route
//! construction, local cache layout, deterministic sandbox identities,
//! archive-extraction planning, the provisioning and launch state machines,
//! and the NFC identification broker with its bounded association cache.
#![allow(unused_imports)]
use vstd::prelude::*;

pub mod broker;
pub mod codec;
pub mod executable;
pub mod extraction;
pub mod identity;
pub mod launch;
pub mod manifest;
pub mod paths;
pub mod provision;
pub mod record;
pub mod routes;
pub mod slot;
