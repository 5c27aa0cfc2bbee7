//! Token-based authentication and session lifecycle for a chat backend:
//! a signed-token codec, a revocation ledger, a credential directory, and
//! the session manager that orchestrates them.
pub mod num;
pub mod token;
pub mod trusted;
pub mod payload;
pub mod codec;
pub mod ledger;
pub mod users;
pub mod session;
pub mod middleware;
pub mod util;
pub mod storage;
