//! Verified core of a tool that sets up a cross-cloud Kubernetes cluster on
//! a nebula mesh network: the address book of the mesh, the scripts and
//! configuration texts it runs and writes, the join token, and the decisions
//! taken on what the commands report.
pub mod codec;
pub mod error;
pub mod net;
pub mod text;
pub mod token;
pub mod mesh;
pub mod k8s;
pub mod setup;
