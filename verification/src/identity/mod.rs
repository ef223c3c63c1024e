//! What ties a machine to its protected key and its certificates.

pub mod cng;
pub mod machine_identity;
pub mod tls;
