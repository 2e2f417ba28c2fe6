//! Content-addressed deployment with blue/green activation.
//!
//! A deploy client fingerprints the files of a working tree, uploads those
//! the store lacks and publishes the tree as a revision. A supervisor keeps
//! a child process running on the latest revision: it fills the slot that
//! is not active, starts a child there, switches over and retires the old
//! child.
//!
//! - [`fingerprint`]: the identifier of a stored file.
//! - [`protocol`]: the requests and responses of the ingest service.
//! - [`store`]: the statements the service issues, and a model of the
//!   store they act on.
//! - [`ingest`]: what the service does for each request.
//! - [`client`]: the deploy client, as a state machine.
//! - [`slot`]: the two slots, blue and green.
//! - [`supervisor`]: the supervisor, as a state machine.
//! - [`mode`]: the ways the server can run.

pub mod client;
pub mod fingerprint;
pub mod ingest;
pub mod mode;
pub mod protocol;
pub mod slot;
pub mod store;
pub mod supervisor;
