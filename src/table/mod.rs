//! Table metadata: options and requests.

pub mod options;
pub mod projection;
pub mod recovery;
pub mod requests;
