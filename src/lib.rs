//! Block-import guard: blocks whose events lack a validator quorum of witness
//! signatures are deferred until the missing proofs arrive over the lookup network.
pub mod hash;
pub mod signature;
pub mod quorum;
pub mod registry;
pub mod interceptor;
