//! Verified decisions of `forge create`, the command that deploys a contract.
//!
//! The command starts at [`args::CreateArgs::run`] and goes on step by step. Each step takes what
//! the compiler, a file, a node or a signer gave, decides, and says what is needed next.
//! [`run`] leads up to a deployment, [`deploy`] and [`deploy_zk`] lead to a deployed contract, and
//! [`verify`] makes the requests to verify its source. [`factory`] builds the transactions.

pub mod abi;
pub mod args;
pub mod deploy;
pub mod deploy_zk;
pub mod distinct;
pub mod exponent;
pub mod factory;
pub mod factory_deps;
pub mod linking;
pub mod primitives;
pub mod results;
pub mod run;
pub mod text;
pub mod tx;
pub mod verify;
