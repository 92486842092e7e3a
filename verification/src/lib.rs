//! An authorization-gated store of named fields attached to staking pools.
//!
//! A write is accepted by the gateway, which validates it and names the two
//! verification requests to send; it is committed by the resolver only when
//! the resolver was invoked by the system itself and both verification
//! results allow it. Reads go straight to the record store.

pub mod authorities;
pub mod contract;
pub mod error;
pub mod fields;
pub mod gateway;
pub mod laws;
pub mod resolver;
pub mod store;

pub use authorities::{ListedPools, OwnedPool};
pub use contract::{ExtStakingPool, ExtWhitelist, PoolDetails};
pub use error::{ArgumentFault, Fault, PoolError};
pub use fields::FieldMap;
pub use gateway::{Dispatch, PendingAuthorization, VerificationRequest, BASE, CALLBACK};
pub use store::{PoolRecord, RecordStore};
