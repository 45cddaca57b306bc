//! Verified core of a publish/subscribe feed client: a framer for the
//! broker's line-oriented wire protocol, the session handshake and dispatch
//! rules, content-identifier extraction, and the hedged gateway-fetch and
//! reconnect-backoff state machines.
pub mod bytes;
pub mod framer;
pub mod records;
pub mod backoff;
pub mod config;
pub mod connect;
pub mod jsonio;
pub mod cid;
pub mod dispatch;
pub mod session;
pub mod fetch;
pub mod hedge;
